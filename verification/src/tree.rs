//! The pane tree: how a window is cut into panes.
//!
//! Every leaf is a pane with tabs of its own; every split divides its area
//! between two children. What a split's area is in pixels is the host's
//! business: the walks that need it take the host's cutting function as an
//! argument.

use crate::tab::Tab;
use vstd::prelude::*;

verus! {

/// Orientation of a split. `Vertical` puts children side by side (a vertical
/// divider); `Horizontal` stacks them (a horizontal divider).
#[derive(Copy, Clone, PartialEq, Eq, Structural, Debug)]
pub enum SplitDir {
    Vertical,
    Horizontal,
}

/// Identifies one pane (leaf) of the window's pane tree. Monotonic.
#[derive(Copy, Clone, PartialEq, Eq, Structural, Debug)]
pub struct PaneId(pub u64);

/// A single-precision number that the library carries and hands back but never
/// computes with: its IEEE 754 bits.
#[derive(Copy, Clone, PartialEq, Eq, Structural, Debug)]
pub struct Scalar(pub u32);

/// The bits of `1.0`, the font scale of a pane that was never rescaled.
pub const ONE_BITS: u32 = 0x3f80_0000;

/// A leaf of the window's pane tree: a self-contained workspace with its own
/// tab bar.
pub struct Pane {
    pub tabs: Vec<Tab>,
    pub active_tab: usize,
    /// Background palette index for the pane's content area; `0` is none.
    pub bg_idx: u8,
    /// Multiplier on the global font size for this pane's content.
    pub font_scale: Scalar,
}

impl Pane {
    /// The pane shows one of its tabs.
    pub open spec fn wf(self) -> bool {
        self.active_tab < self.tabs@.len()
    }

    /// The tab the pane shows.
    pub open spec fn shown(self) -> Tab {
        self.tabs@[self.active_tab as int]
    }

    /// A pane that holds one tab and shows it, with no tint and at full size.
    pub fn single(tab: Tab) -> (p: Self)
        ensures
            p.wf(),
            p.tabs@ == seq![tab],
            p.active_tab == 0,
            p.bg_idx == 0,
            p.font_scale == Scalar(ONE_BITS),
    {
        let mut tabs: Vec<Tab> = Vec::new();
        tabs.push(tab);
        assert(tabs@ =~= seq![tab]);
        Pane { tabs, active_tab: 0, bg_idx: 0, font_scale: Scalar(ONE_BITS) }
    }

    pub fn active_tab_ref(&self) -> (t: &Tab)
        requires
            self.wf(),
        ensures
            *t == self.shown(),
    {
        &self.tabs[self.active_tab]
    }

    pub fn active_tab_mut(&mut self) -> (t: &mut Tab)
        requires
            old(self).wf(),
        ensures
            *t == old(self).shown(),
            final(self).tabs@ == old(self).tabs@.update(old(self).active_tab as int, *final(t)),
            *final(self) == (Pane { tabs: final(self).tabs, ..*old(self) }),
    {
        &mut self.tabs[self.active_tab]
    }
}

/// A binary tree of panes.
pub enum PaneNode {
    Leaf { id: PaneId, pane: Pane },
    Split {
        dir: SplitDir,
        /// Fraction of the parent's area given to `first`.
        ratio: Scalar,
        first: Box<PaneNode>,
        second: Box<PaneNode>,
    },
}

impl PaneNode {
    /// The panes from first to last, each with its id.
    pub open spec fn leaves(self) -> Seq<(PaneId, Pane)>
        decreases self,
    {
        match self {
            PaneNode::Leaf { id, pane } => seq![(id, pane)],
            PaneNode::Split { first, second, .. } => first.leaves() + second.leaves(),
        }
    }

    /// The pane ids from first to last.
    pub open spec fn ids(self) -> Seq<PaneId> {
        self.leaves().map_values(|l: (PaneId, Pane)| l.0)
    }

    /// Some leaf has the id `target`.
    pub open spec fn has(self, target: PaneId) -> bool
        decreases self,
    {
        match self {
            PaneNode::Leaf { id, .. } => id == target,
            PaneNode::Split { first, second, .. } => first.has(target) || second.has(target),
        }
    }

    /// The pane of the first leaf with the id `target`.
    pub open spec fn pane(self, target: PaneId) -> Pane
        recommends
            self.has(target),
        decreases self,
    {
        match self {
            PaneNode::Leaf { pane, .. } => pane,
            PaneNode::Split { first, second, .. } => if first.has(target) {
                first.pane(target)
            } else {
                second.pane(target)
            },
        }
    }

    /// The tree with its first leaf `target` replaced by `node`; the tree
    /// itself where there is no such leaf.
    pub open spec fn replace(self, target: PaneId, node: PaneNode) -> PaneNode
        decreases self,
    {
        match self {
            PaneNode::Leaf { id, .. } => if id == target {
                node
            } else {
                self
            },
            PaneNode::Split { dir, ratio, first, second } => if first.has(target) {
                PaneNode::Split {
                    dir,
                    ratio,
                    first: Box::new(first.replace(target, node)),
                    second,
                }
            } else {
                PaneNode::Split {
                    dir,
                    ratio,
                    first,
                    second: Box::new(second.replace(target, node)),
                }
            },
        }
    }

    /// The tree with the pane of its first leaf `target` set to `pane`.
    pub open spec fn with_pane(self, target: PaneId, pane: Pane) -> PaneNode {
        self.replace(target, PaneNode::Leaf { id: target, pane })
    }

    /// The tree in which the leaf `target` has been split: it stays as the
    /// first child, and a new leaf becomes the second.
    pub open spec fn split(
        self,
        target: PaneId,
        dir: SplitDir,
        new_id: PaneId,
        new_pane: Pane,
        ratio: Scalar,
    ) -> PaneNode {
        if self.has(target) {
            self.replace(
                target,
                PaneNode::Split {
                    dir,
                    ratio,
                    first: Box::new(PaneNode::Leaf { id: target, pane: self.pane(target) }),
                    second: Box::new(PaneNode::Leaf { id: new_id, pane: new_pane }),
                },
            )
        } else {
            self
        }
    }

    /// The tree without its first leaf `target`, whose sibling takes the
    /// parent's place; `None` where that leaf was the whole tree.
    pub open spec fn closed(self, target: PaneId) -> Option<PaneNode>
        decreases self,
    {
        match self {
            PaneNode::Leaf { id, .. } => if id == target {
                None
            } else {
                Some(self)
            },
            PaneNode::Split { dir, ratio, first, second } => if first.has(target) {
                match first.closed(target) {
                    Some(f) => Some(PaneNode::Split { dir, ratio, first: Box::new(f), second }),
                    None => Some(*second),
                }
            } else {
                match second.closed(target) {
                    Some(s) => Some(PaneNode::Split { dir, ratio, first, second: Box::new(s) }),
                    None => Some(*first),
                }
            },
        }
    }

    /// Consume the tree and return one where the leaf `target` has been
    /// replaced by a split at `ratio`: the old leaf becomes `first`, a fresh
    /// leaf `(new_id, new_pane)` becomes `second`.
    pub fn into_split(
        self,
        target: PaneId,
        dir: SplitDir,
        new_id: PaneId,
        new_pane: Pane,
        ratio: Scalar,
    ) -> (r: PaneNode)
        ensures
            r == self.split(target, dir, new_id, new_pane, ratio),
        decreases self,
    {
        match self {
            PaneNode::Leaf { id, pane } => {
                if id == target {
                    PaneNode::Split {
                        dir,
                        ratio,
                        first: Box::new(PaneNode::Leaf { id, pane }),
                        second: Box::new(PaneNode::Leaf { id: new_id, pane: new_pane }),
                    }
                } else {
                    PaneNode::Leaf { id, pane }
                }
            },
            PaneNode::Split { dir: d, ratio: r, first, second } => {
                if first.find(target).is_some() {
                    let f = (*first).into_split(target, dir, new_id, new_pane, ratio);
                    PaneNode::Split { dir: d, ratio: r, first: Box::new(f), second }
                } else {
                    let s = (*second).into_split(target, dir, new_id, new_pane, ratio);
                    PaneNode::Split { dir: d, ratio: r, first, second: Box::new(s) }
                }
            },
        }
    }

    /// Consume the tree and return one with the `target` leaf removed; its
    /// sibling subtree takes the parent's place. `None` if the tree was that
    /// single leaf.
    pub fn into_closed(self, target: PaneId) -> (r: Option<PaneNode>)
        ensures
            r == self.closed(target),
        decreases self,
    {
        match self {
            PaneNode::Leaf { id, pane } => {
                if id == target {
                    None
                } else {
                    Some(PaneNode::Leaf { id, pane })
                }
            },
            PaneNode::Split { dir, ratio, first, second } => {
                let first_has = first.find(target).is_some();
                let second_has = second.find(target).is_some();
                if first_has {
                    match (*first).into_closed(target) {
                        Some(f) => Some(
                            PaneNode::Split { dir, ratio, first: Box::new(f), second },
                        ),
                        None => Some(*second),
                    }
                } else if second_has {
                    match (*second).into_closed(target) {
                        Some(s) => Some(
                            PaneNode::Split { dir, ratio, first, second: Box::new(s) },
                        ),
                        None => Some(*first),
                    }
                } else {
                    proof {
                        lemma_closed_absent(*second, target);
                    }
                    Some(PaneNode::Split { dir, ratio, first, second })
                }
            },
        }
    }

    /// The pane with the id `target`.
    pub fn find(&self, target: PaneId) -> (r: Option<&Pane>)
        ensures
            r is Some <==> self.has(target),
            r matches Some(p) ==> *p == self.pane(target),
        decreases self,
    {
        match self {
            PaneNode::Leaf { id, pane } => {
                if *id == target {
                    Some(pane)
                } else {
                    None
                }
            },
            PaneNode::Split { first, second, .. } => {
                match first.find(target) {
                    Some(p) => Some(p),
                    None => second.find(target),
                }
            },
        }
    }

    /// The pane with the id `target`, to be changed in place.
    pub fn find_mut(&mut self, target: PaneId) -> (r: Option<&mut Pane>)
        ensures
            r is Some <==> old(self).has(target),
            r is None ==> *final(self) == *old(self),
            r matches Some(p) ==> {
                &&& *p == old(self).pane(target)
                &&& *final(self) == old(self).with_pane(target, *final(p))
            },
        decreases *old(self),
    {
        match self {
            PaneNode::Leaf { id, pane } => {
                if *id == target {
                    Some(pane)
                } else {
                    None
                }
            },
            PaneNode::Split { first, second, .. } => {
                if first.find(target).is_some() {
                    first.find_mut(target)
                } else {
                    second.find_mut(target)
                }
            },
        }
    }

    /// The id of the first pane.
    pub fn first_leaf_id(&self) -> (id: PaneId)
        ensures
            id == self.leaves()[0].0,
            self.has(id),
        decreases self,
    {
        proof {
            lemma_leaves_nonempty(*self);
        }
        match self {
            PaneNode::Leaf { id, .. } => *id,
            PaneNode::Split { first, .. } => {
                proof {
                    lemma_leaves_nonempty(**first);
                }
                first.first_leaf_id()
            },
        }
    }

    /// How many panes the tree holds.
    pub fn leaf_count(&self) -> (n: usize)
        requires
            self.leaves().len() <= usize::MAX,
        ensures
            n == self.leaves().len(),
        decreases self,
    {
        match self {
            PaneNode::Leaf { .. } => 1,
            PaneNode::Split { first, second, .. } => first.leaf_count() + second.leaf_count(),
        }
    }

    /// The ratio of the split at `path`: at each step `0` goes to the first
    /// child, any other number to the second.
    pub open spec fn ratio_at(self, path: Seq<usize>) -> Option<Scalar>
        decreases self,
    {
        match self {
            PaneNode::Leaf { .. } => None,
            PaneNode::Split { ratio, first, second, .. } => if path.len() == 0 {
                Some(ratio)
            } else if path[0] == 0 {
                first.ratio_at(path.drop_first())
            } else {
                second.ratio_at(path.drop_first())
            },
        }
    }

    /// The tree with the ratio of the split at `path` set to `value`.
    pub open spec fn with_ratio(self, path: Seq<usize>, value: Scalar) -> PaneNode
        decreases self,
    {
        match self {
            PaneNode::Leaf { .. } => self,
            PaneNode::Split { dir, ratio, first, second } => if path.len() == 0 {
                PaneNode::Split { dir, ratio: value, first, second }
            } else if path[0] == 0 {
                PaneNode::Split {
                    dir,
                    ratio,
                    first: Box::new(first.with_ratio(path.drop_first(), value)),
                    second,
                }
            } else {
                PaneNode::Split {
                    dir,
                    ratio,
                    first,
                    second: Box::new(second.with_ratio(path.drop_first(), value)),
                }
            },
        }
    }

    /// The ratio of the split at `path`, to be changed in place.
    pub fn split_ratio_at_mut(&mut self, path: &[usize]) -> (r: Option<&mut Scalar>)
        ensures
            r is Some <==> old(self).ratio_at(path@) is Some,
            r is None ==> *final(self) == *old(self),
            r matches Some(x) ==> {
                &&& Some(*x) == old(self).ratio_at(path@)
                &&& *final(self) == old(self).with_ratio(path@, *final(x))
            },
        decreases *old(self),
    {
        match self {
            PaneNode::Leaf { .. } => None,
            PaneNode::Split { ratio, first, second, .. } => {
                if path.len() == 0 {
                    Some(ratio)
                } else {
                    let rest = vstd::slice::slice_subrange(path, 1, path.len());
                    assert(rest@ =~= path@.drop_first());
                    if path[0] == 0 {
                        first.split_ratio_at_mut(rest)
                    } else {
                        second.split_ratio_at_mut(rest)
                    }
                }
            },
        }
    }

    /// The tabs of every pane, pane after pane.
    pub open spec fn tabs(self) -> Seq<Tab>
        decreases self,
    {
        match self {
            PaneNode::Leaf { pane, .. } => pane.tabs@,
            PaneNode::Split { first, second, .. } => first.tabs() + second.tabs(),
        }
    }

    /// Collect every tab of the tree.
    pub fn all_tabs<'a>(&'a self, out: &mut Vec<&'a Tab>)
        ensures
            final(out)@.len() == old(out)@.len() + self.tabs().len(),
            final(out)@.take(old(out)@.len() as int) == old(out)@,
            forall|i: int|
                0 <= i < self.tabs().len() ==> *#[trigger] final(out)@[old(out)@.len() + i]
                    == self.tabs()[i],
        decreases self,
    {
        let ghost before = out@;
        match self {
            PaneNode::Leaf { pane, .. } => {
                let mut i: usize = 0;
                while i < pane.tabs.len()
                    invariant
                        i <= pane.tabs@.len(),
                        out@.len() == before.len() + i,
                        out@.take(before.len() as int) == before,
                        forall|k: int|
                            0 <= k < i ==> *#[trigger] out@[before.len() + k] == pane.tabs@[k],
                    decreases pane.tabs.len() - i,
                {
                    let ghost mid = out@;
                    out.push(&pane.tabs[i]);
                    assert(out@.take(before.len() as int) =~= mid.take(before.len() as int));
                    i = i + 1;
                }
            },
            PaneNode::Split { first, second, .. } => {
                first.all_tabs(out);
                let ghost mid = out@;
                second.all_tabs(out);
                assert(out@.take(before.len() as int) =~= mid.take(before.len() as int)) by {
                    assert(out@.take(mid.len() as int) == mid);
                }
                assert forall|i: int| 0 <= i < self.tabs().len() implies *#[trigger] out@[
                before.len() + i] == self.tabs()[i] by {
                    if i < first.tabs().len() {
                        assert(out@.take(mid.len() as int)[before.len() + i] == mid[before.len()
                            + i]);
                    } else {
                        let j = i - first.tabs().len();
                        assert(*out@[mid.len() + j] == second.tabs()[j]);
                    }
                }
            },
        }
    }

    /// Collect every pane of the tree.
    pub fn all_panes<'a>(&'a self, out: &mut Vec<&'a Pane>)
        ensures
            final(out)@.len() == old(out)@.len() + self.leaves().len(),
            final(out)@.take(old(out)@.len() as int) == old(out)@,
            forall|i: int|
                0 <= i < self.leaves().len() ==> *#[trigger] final(out)@[old(out)@.len() + i]
                    == self.leaves()[i].1,
        decreases self,
    {
        let ghost before = out@;
        match self {
            PaneNode::Leaf { pane, .. } => {
                out.push(pane);
                assert(out@.take(before.len() as int) =~= before);
            },
            PaneNode::Split { first, second, .. } => {
                first.all_panes(out);
                let ghost mid = out@;
                second.all_panes(out);
                assert(out@.take(before.len() as int) =~= mid.take(before.len() as int)) by {
                    assert(out@.take(mid.len() as int) == mid);
                }
                assert forall|i: int| 0 <= i < self.leaves().len() implies *#[trigger] out@[
                before.len() + i] == self.leaves()[i].1 by {
                    if i < first.leaves().len() {
                        assert(out@.take(mid.len() as int)[before.len() + i] == mid[before.len()
                            + i]);
                    } else {
                        let j = i - first.leaves().len();
                        assert(*out@[mid.len() + j] == second.leaves()[j].1);
                    }
                }
            },
        }
    }
}

/// A tree has at least one pane.
pub proof fn lemma_leaves_nonempty(node: PaneNode)
    ensures
        node.leaves().len() >= 1,
    decreases node,
{
    if let PaneNode::Split { first, .. } = node {
        lemma_leaves_nonempty(*first);
    }
}

proof fn lemma_closed_absent(node: PaneNode, target: PaneId)
    ensures
        !node.has(target) ==> node.closed(target) == Some(node),
    decreases node,
{
    if let PaneNode::Split { first, second, .. } = node {
        lemma_closed_absent(*second, target);
    }
}

} // verus!

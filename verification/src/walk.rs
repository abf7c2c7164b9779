//! Walks of the pane tree that need areas: laying panes out, finding the
//! divider under a point, listing the dividers.
//!
//! An area is whatever the host measures in. `cut` divides the area of a split
//! between its children.

use crate::tree::{PaneId, PaneNode, Scalar, SplitDir};
use vstd::prelude::*;

verus! {

/// A divider: the area of its split, the area of the split's first child, and
/// the split's orientation.
pub struct Divider<R> {
    pub outer: R,
    pub first: R,
    pub dir: SplitDir,
}

/// Where a divider was hit: the path to its split, the split's area and its
/// orientation.
pub struct DividerHit<R> {
    pub path: Vec<usize>,
    pub outer: R,
    pub dir: SplitDir,
}

impl PaneNode {
    /// `out` gives every pane of the tree, first to last, the area that
    /// cutting `area` at each split leaves it.
    pub open spec fn laid_out<R, F: Fn(R, SplitDir, Scalar) -> (R, R)>(
        self,
        cut: F,
        area: R,
        out: Seq<(PaneId, R)>,
    ) -> bool
        decreases self,
    {
        match self {
            PaneNode::Leaf { id, .. } => out == seq![(id, area)],
            PaneNode::Split { dir, ratio, first, second } => exists|a: R, b: R|
                {
                    let n = first.leaves().len() as int;
                    &&& #[trigger] call_ensures(cut, (area, dir, ratio), (a, b))
                    &&& out.len() == first.leaves().len() + second.leaves().len()
                    &&& first.laid_out(cut, a, out.take(n))
                    &&& second.laid_out(cut, b, out.skip(n))
                },
        }
    }

    /// Assign an area to every pane, for a given outer area.
    pub fn layout<R: Copy, F: Fn(R, SplitDir, Scalar) -> (R, R)>(
        &self,
        cut: &F,
        area: R,
        out: &mut Vec<(PaneId, R)>,
    )
        requires
            forall|r: R, d: SplitDir, s: Scalar| call_requires(*cut, (r, d, s)),
        ensures
            final(out)@.len() == old(out)@.len() + self.leaves().len(),
            final(out)@.take(old(out)@.len() as int) == old(out)@,
            self.laid_out(*cut, area, final(out)@.skip(old(out)@.len() as int)),
        decreases self,
    {
        let ghost n0 = out@.len() as int;
        let ghost before = out@;
        match self {
            PaneNode::Leaf { id, .. } => {
                out.push((*id, area));
                assert(out@.take(n0) =~= before);
                assert(out@.skip(n0) =~= seq![(*id, area)]);
            },
            PaneNode::Split { dir, ratio, first, second } => {
                let (a, b) = cut(area, *dir, *ratio);
                first.layout(cut, a, out);
                let ghost mid = out@;
                second.layout(cut, b, out);
                proof {
                    let n = first.leaves().len() as int;
                    let all = out@.skip(n0);
                    assert(out@.take(mid.len() as int) == mid);
                    assert(out@.take(n0) =~= mid.take(n0));
                    assert(all.take(n) =~= mid.skip(n0)) by {
                        assert forall|i: int| 0 <= i < n implies all.take(n)[i] == mid.skip(n0)[i] by {
                            assert(out@.take(mid.len() as int)[n0 + i] == mid[n0 + i]);
                        }
                    }
                    assert(all.skip(n) =~= out@.skip(mid.len() as int));
                    assert(call_ensures(*cut, (area, *dir, *ratio), (a, b)));
                }
            },
        }
    }

    /// `found` is the first split, parents before children and first children
    /// before second ones, whose divider `hit` accepts.
    pub open spec fn divider_found<
        R,
        F: Fn(R, SplitDir, Scalar) -> (R, R),
        H: Fn(R, R, SplitDir) -> bool,
    >(self, cut: F, hit: H, area: R, found: Option<(Seq<usize>, R, SplitDir)>) -> bool
        decreases self,
    {
        match self {
            PaneNode::Leaf { .. } => found is None,
            PaneNode::Split { dir, ratio, first, second } => exists|a: R, b: R|
                {
                    &&& #[trigger] call_ensures(cut, (area, dir, ratio), (a, b))
                    &&& {
                        ||| {
                            &&& call_ensures(hit, (area, a, dir), true)
                            &&& found == Some((Seq::<usize>::empty(), area, dir))
                        }
                        ||| {
                            &&& call_ensures(hit, (area, a, dir), false)
                            &&& match found {
                                Some((path, outer, d)) => {
                                    &&& path.len() > 0
                                    &&& {
                                        ||| {
                                            &&& path[0] == 0
                                            &&& first.divider_found(
                                                cut,
                                                hit,
                                                a,
                                                Some((path.drop_first(), outer, d)),
                                            )
                                        }
                                        ||| {
                                            &&& path[0] == 1
                                            &&& first.divider_found(cut, hit, a, None)
                                            &&& second.divider_found(
                                                cut,
                                                hit,
                                                b,
                                                Some((path.drop_first(), outer, d)),
                                            )
                                        }
                                    }
                                },
                                None => {
                                    &&& first.divider_found(cut, hit, a, None)
                                    &&& second.divider_found(cut, hit, b, None)
                                },
                            }
                        }
                    }
                },
        }
    }

    /// Find the split divider that `hit` accepts. `hit` is asked with the
    /// split's area, the area of its first child, and its orientation.
    pub fn divider_at<
        R: Copy,
        F: Fn(R, SplitDir, Scalar) -> (R, R),
        H: Fn(R, R, SplitDir) -> bool,
    >(&self, cut: &F, hit: &H, area: R) -> (r: Option<DividerHit<R>>)
        requires
            forall|r: R, d: SplitDir, s: Scalar| call_requires(*cut, (r, d, s)),
            forall|r: R, s: R, d: SplitDir| call_requires(*hit, (r, s, d)),
        ensures
            match r {
                Some(h) => {
                    &&& self.divider_found(*cut, *hit, area, Some((h.path@, h.outer, h.dir)))
                    &&& self.ratio_at(h.path@) is Some
                },
                None => self.divider_found(*cut, *hit, area, None),
            },
        decreases self,
    {
        match self {
            PaneNode::Leaf { .. } => None,
            PaneNode::Split { dir, ratio, first, second } => {
                let (a, b) = cut(area, *dir, *ratio);
                let on = hit(area, a, *dir);
                assert(call_ensures(*cut, (area, *dir, *ratio), (a, b)));
                assert(call_ensures(*hit, (area, a, *dir), on));
                if on {
                    let path: Vec<usize> = Vec::new();
                    assert(path@ =~= Seq::<usize>::empty());
                    return Some(DividerHit { path, outer: area, dir: *dir });
                }
                if let Some(h) = first.divider_at(cut, hit, a) {
                    let mut path = h.path;
                    let ghost tail = path@;
                    path.insert(0, 0);
                    assert(path@.drop_first() =~= tail);
                    return Some(DividerHit { path, outer: h.outer, dir: h.dir });
                }
                if let Some(h) = second.divider_at(cut, hit, b) {
                    let mut path = h.path;
                    let ghost tail = path@;
                    path.insert(0, 1);
                    assert(path@.drop_first() =~= tail);
                    return Some(DividerHit { path, outer: h.outer, dir: h.dir });
                }
                None
            },
        }
    }

    /// How many splits the tree holds.
    pub open spec fn splits(self) -> nat
        decreases self,
    {
        match self {
            PaneNode::Leaf { .. } => 0,
            PaneNode::Split { first, second, .. } => 1 + first.splits() + second.splits(),
        }
    }

    /// `out` lists the dividers of the tree, parents before children and first
    /// children before second ones.
    pub open spec fn dividers_listed<R, F: Fn(R, SplitDir, Scalar) -> (R, R)>(
        self,
        cut: F,
        area: R,
        out: Seq<Divider<R>>,
    ) -> bool
        decreases self,
    {
        match self {
            PaneNode::Leaf { .. } => out.len() == 0,
            PaneNode::Split { dir, ratio, first, second } => exists|a: R, b: R|
                {
                    let n = 1 + first.splits() as int;
                    &&& #[trigger] call_ensures(cut, (area, dir, ratio), (a, b))
                    &&& out.len() == n + second.splits()
                    &&& out[0] == (Divider { outer: area, first: a, dir })
                    &&& first.dividers_listed(cut, a, out.subrange(1, n))
                    &&& second.dividers_listed(cut, b, out.skip(n))
                },
        }
    }

    /// List the dividers of the tree.
    pub fn collect_dividers<R: Copy, F: Fn(R, SplitDir, Scalar) -> (R, R)>(
        &self,
        cut: &F,
        area: R,
        out: &mut Vec<Divider<R>>,
    )
        requires
            forall|r: R, d: SplitDir, s: Scalar| call_requires(*cut, (r, d, s)),
        ensures
            final(out)@.len() == old(out)@.len() + self.splits(),
            final(out)@.take(old(out)@.len() as int) == old(out)@,
            self.dividers_listed(*cut, area, final(out)@.skip(old(out)@.len() as int)),
        decreases self,
    {
        let ghost n0 = out@.len() as int;
        let ghost before = out@;
        match self {
            PaneNode::Leaf { .. } => {
                assert(out@.take(n0) =~= before);
            },
            PaneNode::Split { dir, ratio, first, second } => {
                let (a, b) = cut(area, *dir, *ratio);
                out.push(Divider { outer: area, first: a, dir: *dir });
                let ghost one = out@;
                first.collect_dividers(cut, a, out);
                let ghost mid = out@;
                second.collect_dividers(cut, b, out);
                proof {
                    let n = 1 + first.splits() as int;
                    let all = out@.skip(n0);
                    assert(out@.take(mid.len() as int) == mid);
                    assert(mid.take(one.len() as int) == one);
                    assert forall|i: int| 0 <= i < mid.len() implies out@[i] == mid[i] by {
                        assert(out@.take(mid.len() as int)[i] == mid[i]);
                    }
                    assert forall|i: int| 0 <= i < one.len() implies mid[i] == one[i] by {
                        assert(mid.take(one.len() as int)[i] == one[i]);
                    }
                    assert(out@.take(n0) =~= before);
                    assert(all[0] == one[n0]);
                    assert(all.subrange(1, n) =~= mid.skip(one.len() as int));
                    assert(all.skip(n) =~= out@.skip(mid.len() as int));
                    assert(call_ensures(*cut, (area, *dir, *ratio), (a, b)));
                }
            },
        }
    }
}

} // verus!

//! What the operations on the pane tree do to its panes, seen as a list.

use crate::tree::{lemma_leaves_nonempty, Pane, PaneId, PaneNode, Scalar, SplitDir};
use vstd::prelude::*;

verus! {

impl PaneNode {
    /// No two panes share an id.
    pub open spec fn distinct(self) -> bool {
        forall|i: int, j: int|
            0 <= i < j < self.leaves().len() ==> #[trigger] self.leaves()[i].0
                != #[trigger] self.leaves()[j].0
    }

    /// How many panes stand before the first one with the id `target`.
    pub open spec fn position(self, target: PaneId) -> int
        decreases self,
    {
        match self {
            PaneNode::Leaf { .. } => 0,
            PaneNode::Split { first, second, .. } => if first.has(target) {
                first.position(target)
            } else {
                first.leaves().len() + second.position(target)
            },
        }
    }
}

/// A pane is in the tree exactly when it is among the leaves, and `pane` gives
/// the first one with its id.
pub proof fn law_position(t: PaneNode, target: PaneId)
    ensures
        t.has(target) <==> exists|i: int|
            0 <= i < t.leaves().len() && #[trigger] t.leaves()[i].0 == target,
        t.has(target) ==> {
            let k = t.position(target);
            &&& 0 <= k < t.leaves().len()
            &&& t.leaves()[k] == (target, t.pane(target))
            &&& forall|i: int| 0 <= i < k ==> #[trigger] t.leaves()[i].0 != target
        },
    decreases t,
{
    match t {
        PaneNode::Leaf { id, pane } => {
            assert(t.leaves()[0].0 == id);
        },
        PaneNode::Split { first, second, .. } => {
            law_position(*first, target);
            law_position(*second, target);
            let l1 = first.leaves();
            let l2 = second.leaves();
            assert(t.leaves() == l1 + l2);
            assert forall|i: int| 0 <= i < l1.len() implies t.leaves()[i] == l1[i] by {}
            assert forall|i: int| l1.len() <= i < t.leaves().len() implies t.leaves()[i] == l2[i
                - l1.len()] by {}
            if first.has(target) {
                let k = first.position(target);
                assert(t.leaves()[k].0 == target);
            } else if second.has(target) {
                let k = second.position(target);
                assert(t.leaves()[l1.len() + k].0 == target);
            }
        },
    }
}

proof fn lemma_with_pane_has(t: PaneNode, target: PaneId, pane: Pane, id: PaneId)
    requires
        t.has(target),
    ensures
        t.with_pane(target, pane).has(id) <==> t.has(id),
    decreases t,
{
    if let PaneNode::Split { first, second, .. } = t {
        if first.has(target) {
            lemma_with_pane_has(*first, target, pane, id);
        } else {
            lemma_with_pane_has(*second, target, pane, id);
        }
    }
}

/// Replacing the pane of a leaf leaves every other pane as it was.
pub proof fn law_with_pane(t: PaneNode, target: PaneId, pane: Pane)
    requires
        t.has(target),
    ensures
        t.with_pane(target, pane).leaves() == t.leaves().update(
            t.position(target),
            (target, pane),
        ),
        forall|id: PaneId| #[trigger] t.with_pane(target, pane).has(id) <==> t.has(id),
        t.with_pane(target, pane).pane(target) == pane,
        t.with_pane(target, pane).position(target) == t.position(target),
        t.distinct() ==> t.with_pane(target, pane).distinct(),
    decreases t,
{
    let u = t.with_pane(target, pane);
    law_position(t, target);
    assert forall|id: PaneId| #[trigger] u.has(id) <==> t.has(id) by {
        lemma_with_pane_has(t, target, pane, id);
    }
    match t {
        PaneNode::Leaf { .. } => {
            assert(u.leaves() =~= t.leaves().update(0, (target, pane)));
        },
        PaneNode::Split { first, second, .. } => {
            if first.has(target) {
                law_with_pane(*first, target, pane);
                law_position(*first, target);
                assert(u.leaves() =~= t.leaves().update(t.position(target), (target, pane)));
            } else {
                law_with_pane(*second, target, pane);
                law_position(*second, target);
                assert(u.leaves() =~= t.leaves().update(t.position(target), (target, pane)));
            }
        },
    }
    if t.distinct() {
        assert forall|i: int, j: int| 0 <= i < j < u.leaves().len() implies #[trigger] u.leaves()[i].0
            != #[trigger] u.leaves()[j].0 by {
            assert(u.leaves()[i].0 == t.leaves()[i].0);
            assert(u.leaves()[j].0 == t.leaves()[j].0);
        }
    }
}

/// Replacing the pane of one leaf does not change the pane of another.
pub proof fn law_with_pane_other(t: PaneNode, target: PaneId, pane: Pane, other: PaneId)
    requires
        t.has(target),
        t.has(other),
        other != target,
    ensures
        t.with_pane(target, pane).pane(other) == t.pane(other),
    decreases t,
{
    if let PaneNode::Split { first, second, .. } = t {
        if first.has(target) {
            law_with_pane(*first, target, pane);
            if first.has(other) {
                law_with_pane_other(*first, target, pane, other);
            }
        } else {
            law_with_pane(*second, target, pane);
            if !first.has(other) {
                law_with_pane_other(*second, target, pane, other);
            }
        }
    }
}

/// A split adds one pane, right after the one that was split, and changes no
/// other.
pub proof fn law_split_leaves(
    t: PaneNode,
    target: PaneId,
    dir: SplitDir,
    new_id: PaneId,
    new_pane: Pane,
    ratio: Scalar,
)
    requires
        t.has(target),
    ensures
        t.split(target, dir, new_id, new_pane, ratio).leaves() == t.leaves().insert(
            t.position(target) + 1,
            (new_id, new_pane),
        ),
    decreases t,
{
    let u = t.split(target, dir, new_id, new_pane, ratio);
    law_position(t, target);
    match t {
        PaneNode::Leaf { id, pane } => {
            reveal_with_fuel(PaneNode::leaves, 2);
            assert(u.leaves() =~= t.leaves().insert(1, (new_id, new_pane)));
        },
        PaneNode::Split { first, second, .. } => {
            if first.has(target) {
                law_split_leaves(*first, target, dir, new_id, new_pane, ratio);
                law_position(*first, target);
                assert(u.leaves() =~= t.leaves().insert(
                    t.position(target) + 1,
                    (new_id, new_pane),
                ));
            } else {
                law_split_leaves(*second, target, dir, new_id, new_pane, ratio);
                law_position(*second, target);
                assert(u.leaves() =~= t.leaves().insert(
                    t.position(target) + 1,
                    (new_id, new_pane),
                ));
            }
        },
    }
}

/// Ids stay distinct when a pane is split off under a fresh id, and the new
/// pane is in the tree.
pub proof fn law_split_distinct(
    t: PaneNode,
    target: PaneId,
    dir: SplitDir,
    new_id: PaneId,
    new_pane: Pane,
    ratio: Scalar,
)
    requires
        t.has(target),
        t.distinct(),
        !t.has(new_id),
    ensures
        t.split(target, dir, new_id, new_pane, ratio).distinct(),
        t.split(target, dir, new_id, new_pane, ratio).has(new_id),
        t.split(target, dir, new_id, new_pane, ratio).pane(new_id) == new_pane,
        forall|id: PaneId| #[trigger]
            t.split(target, dir, new_id, new_pane, ratio).has(id) <==> (t.has(id) || id == new_id),
{
    let u = t.split(target, dir, new_id, new_pane, ratio);
    let k = t.position(target) + 1;
    law_split_leaves(t, target, dir, new_id, new_pane, ratio);
    law_position(t, target);
    law_position(t, new_id);
    law_position(u, new_id);
    assert(u.leaves()[k].0 == new_id);
    assert forall|i: int| 0 <= i < u.leaves().len() && i != k implies #[trigger] u.leaves()[i]
        == t.leaves()[if i < k { i } else { i - 1 }] by {}
    assert forall|i: int, j: int| 0 <= i < j < u.leaves().len() implies #[trigger] u.leaves()[i].0
        != #[trigger] u.leaves()[j].0 by {
        let a = if i < k { i } else { i - 1 };
        let b = if j < k { j } else { j - 1 };
        if i != k && j != k {
            assert(t.leaves()[a].0 != t.leaves()[b].0);
        } else if i != k {
            assert(t.leaves()[a].0 != new_id);
        } else {
            assert(t.leaves()[b].0 != new_id);
        }
    }
    let p = u.position(new_id);
    if p != k {
        assert(p < k ==> u.leaves()[p].0 != u.leaves()[k].0);
        assert(k < p ==> u.leaves()[k].0 != u.leaves()[p].0);
    }
    assert forall|id: PaneId| #[trigger] u.has(id) <==> (t.has(id) || id == new_id) by {
        law_position(t, id);
        law_position(u, id);
        if t.has(id) {
            let q = t.position(id);
            let i = if q < k { q } else { q + 1 };
            assert(u.leaves()[i].0 == id);
        }
        if u.has(id) && id != new_id {
            let q = u.position(id);
            let i = if q < k { q } else { q - 1 };
            assert(t.leaves()[i].0 == id);
        }
    }
}

/// Closing a pane removes it and no other; the remaining panes keep their
/// order. Only the last pane of a tree leaves nothing behind.
pub proof fn law_close_leaves(t: PaneNode, target: PaneId)
    requires
        t.has(target),
    ensures
        t.closed(target) is None <==> t.leaves().len() == 1,
        t.closed(target) matches Some(u) ==> u.leaves() == t.leaves().remove(
            t.position(target),
        ),
    decreases t,
{
    law_position(t, target);
    if let PaneNode::Split { dir, ratio, first, second } = t {
        lemma_leaves_nonempty(*first);
        lemma_leaves_nonempty(*second);
        let k = t.position(target);
        let l1 = first.leaves();
        let l2 = second.leaves();
        if first.has(target) {
            law_close_leaves(*first, target);
            law_position(*first, target);
            match first.closed(target) {
                Some(f) => {
                    let u = PaneNode::Split { dir, ratio, first: Box::new(f), second };
                    assert(u.leaves() == f.leaves() + l2);
                    assert(l1.remove(k) + l2 =~= (l1 + l2).remove(k));
                },
                None => {
                    assert((l1 + l2).remove(k) =~= l2);
                },
            }
        } else {
            law_close_leaves(*second, target);
            law_position(*second, target);
            match second.closed(target) {
                Some(f) => {
                    let u = PaneNode::Split { dir, ratio, first, second: Box::new(f) };
                    assert(u.leaves() == l1 + f.leaves());
                    assert(l1 + l2.remove(k - l1.len()) =~= (l1 + l2).remove(k));
                },
                None => {
                    assert((l1 + l2).remove(k) =~= l1);
                },
            }
        }
    }
}

/// Ids stay distinct when a pane is closed; exactly that pane is gone, and
/// every other one is as it was.
pub proof fn law_close_distinct(t: PaneNode, target: PaneId)
    requires
        t.has(target),
        t.distinct(),
        t.leaves().len() > 1,
    ensures
        t.closed(target) matches Some(u) && {
            &&& u.distinct()
            &&& forall|id: PaneId| #[trigger] u.has(id) <==> (t.has(id) && id != target)
            &&& forall|id: PaneId| u.has(id) ==> #[trigger] u.pane(id) == t.pane(id)
        },
{
    law_close_leaves(t, target);
    law_position(t, target);
    let u = t.closed(target)->0;
    let k = t.position(target);
    assert forall|i: int| 0 <= i < u.leaves().len() implies #[trigger] u.leaves()[i]
        == t.leaves()[if i < k { i } else { i + 1 }] by {}
    assert forall|i: int, j: int| 0 <= i < j < u.leaves().len() implies #[trigger] u.leaves()[i].0
        != #[trigger] u.leaves()[j].0 by {
        let a = if i < k { i } else { i + 1 };
        let b = if j < k { j } else { j + 1 };
        assert(t.leaves()[a].0 != t.leaves()[b].0);
    }
    assert forall|id: PaneId| (#[trigger] u.has(id) <==> (t.has(id) && id != target)) && (u.has(id) ==> u.pane(id)
        == t.pane(id)) by {
        law_position(t, id);
        law_position(u, id);
        if u.has(id) {
            let q = u.position(id);
            let i = if q < k { q } else { q + 1 };
            assert(t.leaves()[i].0 == id);
            let p = t.position(id);
            assert(p < i ==> t.leaves()[p].0 != t.leaves()[i].0);
            assert(i < p ==> t.leaves()[i].0 != t.leaves()[p].0);
            assert(i < k ==> t.leaves()[i].0 != t.leaves()[k].0);
            assert(k < i ==> t.leaves()[k].0 != t.leaves()[i].0);
        }
        if t.has(id) && id != target {
            let q = t.position(id);
            let i = if q < k { q } else { q - 1 };
            assert(u.leaves()[i].0 == id);
        }
    }
}

/// Closing the pane that a split has just made gives the tree before the split
/// back.
pub proof fn law_split_then_close(
    t: PaneNode,
    target: PaneId,
    dir: SplitDir,
    new_id: PaneId,
    new_pane: Pane,
    ratio: Scalar,
)
    requires
        t.has(target),
        !t.has(new_id),
    ensures
        t.split(target, dir, new_id, new_pane, ratio).closed(new_id) == Some(t),
    decreases t,
{
    match t {
        PaneNode::Leaf { id, pane } => {
            reveal_with_fuel(PaneNode::has, 2);
            reveal_with_fuel(PaneNode::closed, 2);
        },
        PaneNode::Split { first, second, .. } => {
            if first.has(target) {
                law_split_then_close(*first, target, dir, new_id, new_pane, ratio);
                lemma_split_has(*first, target, dir, new_id, new_pane, ratio);
            } else {
                law_split_then_close(*second, target, dir, new_id, new_pane, ratio);
            }
        },
    }
}

proof fn lemma_split_has(
    t: PaneNode,
    target: PaneId,
    dir: SplitDir,
    new_id: PaneId,
    new_pane: Pane,
    ratio: Scalar,
)
    requires
        t.has(target),
    ensures
        t.split(target, dir, new_id, new_pane, ratio).has(new_id),
{
    let u = t.split(target, dir, new_id, new_pane, ratio);
    law_split_leaves(t, target, dir, new_id, new_pane, ratio);
    law_position(t, target);
    law_position(u, new_id);
    assert(u.leaves()[t.position(target) + 1].0 == new_id);
}

proof fn lemma_ratio_pane(t: PaneNode, path: Seq<usize>, value: Scalar, id: PaneId)
    ensures
        t.with_ratio(path, value).has(id) <==> t.has(id),
        t.has(id) ==> t.with_ratio(path, value).pane(id) == t.pane(id),
    decreases t,
{
    if let PaneNode::Split { first, second, .. } = t {
        if path.len() > 0 {
            lemma_ratio_pane(*first, path.drop_first(), value, id);
            lemma_ratio_pane(*second, path.drop_first(), value, id);
        }
    }
}

/// Dragging a divider changes no pane, and a path that named a split still
/// does.
pub proof fn law_ratio_keeps_panes(t: PaneNode, path: Seq<usize>, value: Scalar)
    ensures
        t.with_ratio(path, value).leaves() == t.leaves(),
        t.ratio_at(path) is Some ==> t.with_ratio(path, value).ratio_at(path) == Some(value),
        forall|id: PaneId| #[trigger] t.with_ratio(path, value).has(id) <==> t.has(id),
        forall|id: PaneId| t.has(id) ==> #[trigger] t.with_ratio(path, value).pane(id) == t.pane(id),
    decreases t,
{
    if let PaneNode::Split { first, second, .. } = t {
        if path.len() > 0 {
            law_ratio_keeps_panes(*first, path.drop_first(), value);
            law_ratio_keeps_panes(*second, path.drop_first(), value);
        }
    }
    assert forall|id: PaneId| #[trigger] t.with_ratio(path, value).has(id) <==> t.has(id) by {
        lemma_ratio_pane(t, path, value, id);
    }
    assert forall|id: PaneId| t.has(id) implies #[trigger] t.with_ratio(path, value).pane(id)
        == t.pane(id) by {
        lemma_ratio_pane(t, path, value, id);
    }
}

} // verus!

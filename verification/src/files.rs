//! Who waits for which file.
//!
//! An actor that asks for a file somebody else holds is queued; when the file
//! is free again, everyone in its queue is told.

use crate::text::same_text;
use vstd::prelude::*;

verus! {

/// Cap on waiters queued per file; oldest are dropped.
pub const FILE_WAITERS_CAP: usize = 16;

/// Those who wait for one path, in the order they came.
pub struct FileQueue {
    pub path: String,
    pub waiters: Vec<String>,
}

pub struct FileWaiters {
    pub queues: Vec<FileQueue>,
}

/// The slugs of a queue.
pub open spec fn slugs(q: FileQueue) -> Seq<Seq<char>> {
    crate::text::views(q.waiters@)
}

/// A queue after `actor` has come to it: nobody stands in it twice, and the
/// oldest goes where it is full.
pub open spec fn joined_queue(q: Seq<Seq<char>>, actor: Seq<char>) -> Seq<Seq<char>> {
    if q.contains(actor) {
        q
    } else if q.len() >= FILE_WAITERS_CAP {
        q.drop_first().push(actor)
    } else {
        q.push(actor)
    }
}

/// A queue that is short enough and in which nobody stands twice.
pub open spec fn queue_ok(q: Seq<Seq<char>>) -> bool {
    q.len() <= FILE_WAITERS_CAP && q.no_duplicates()
}

impl FileWaiters {
    pub open spec fn wf(self) -> bool {
        &&& forall|i: int, j: int|
            0 <= i < j < self.queues@.len() ==> (#[trigger] self.queues@[i]).path@ != (
            #[trigger] self.queues@[j]).path@
        &&& forall|i: int| 0 <= i < self.queues@.len() ==> queue_ok(slugs(#[trigger] self.queues@[i]))
    }

    /// The queue `i` is that of `path`.
    pub open spec fn listed(self, path: Seq<char>, i: int) -> bool {
        0 <= i < self.queues@.len() && self.queues@[i].path@ == path
    }

    /// Who waits for `path`.
    pub open spec fn waiting(self, path: Seq<char>) -> Seq<Seq<char>> {
        if exists|i: int| self.listed(path, i) {
            slugs(self.queues@[choose|i: int| self.listed(path, i)])
        } else {
            Seq::empty()
        }
    }

    pub proof fn lemma_listed(self, path: Seq<char>, i: int)
        requires
            self.wf(),
            self.listed(path, i),
        ensures
            self.waiting(path) == slugs(self.queues@[i]),
    {
        let j = choose|j: int| self.listed(path, j);
        assert(self.listed(path, j));
        if i < j {
            assert(self.queues@[i].path@ != self.queues@[j].path@);
        } else if j < i {
            assert(self.queues@[j].path@ != self.queues@[i].path@);
        }
    }

    pub fn new() -> (w: Self)
        ensures
            w.wf(),
            forall|p: Seq<char>| w.waiting(p).len() == 0,
    {
        FileWaiters { queues: Vec::new() }
    }

    /// Queue an actor that asked for a path somebody else holds.
    pub fn join(&mut self, path: &str, actor: &str)
        requires
            old(self).wf(),
        ensures
            final(self).wf(),
            final(self).waiting(path@) == joined_queue(old(self).waiting(path@), actor@),
            forall|p: Seq<char>|
                p != path@ ==> #[trigger] final(self).waiting(p) == old(self).waiting(p),
    {
        let ghost o = *self;
        let mut at: usize = 0;
        while at < self.queues.len() && !same_text(self.queues[at].path.as_str(), path)
            invariant
                *self == o,
                at <= self.queues@.len(),
                forall|k: int| 0 <= k < at ==> (#[trigger] self.queues@[k]).path@ != path@,
            decreases self.queues.len() - at,
        {
            at = at + 1;
        }
        if at == self.queues.len() {
            self.queues.push(FileQueue { path: path.to_owned(), waiters: Vec::new() });
            assert(slugs(self.queues@[at as int]) =~= Seq::<Seq<char>>::empty());
            assert(forall|k: int| !o.listed(path@, k));
        } else {
            proof {
                o.lemma_listed(path@, at as int);
            }
        }
        let ghost m = *self;
        let ghost q0 = slugs(self.queues@[at as int]);
        assert(q0 == o.waiting(path@));
        assert(queue_ok(q0));
        let mut i: usize = 0;
        let mut known = false;
        while i < self.queues[at].waiters.len()
            invariant
                *self == m,
                at < self.queues@.len(),
                q0 == slugs(self.queues@[at as int]),
                i <= q0.len(),
                known == exists|k: int| 0 <= k < i && #[trigger] q0[k] == actor@,
            decreases q0.len() - i,
        {
            let hit = same_text(self.queues[at].waiters[i].as_str(), actor);
            assert(q0[i as int] == self.queues@[at as int].waiters@[i as int]@);
            if hit {
                known = true;
            }
            i = i + 1;
        }
        assert(known == q0.contains(actor@));
        if !known {
            self.queues[at].waiters.push(actor.to_owned());
            assert(slugs(self.queues@[at as int]) =~= q0.push(actor@));
            if self.queues[at].waiters.len() > FILE_WAITERS_CAP {
                self.queues[at].waiters.remove(0);
                assert(slugs(self.queues@[at as int]) =~= q0.drop_first().push(actor@));
            }
        }
        proof {
            let f = *self;
            let q1 = slugs(f.queues@[at as int]);
            assert(q1 =~= joined_queue(q0, actor@));
            lemma_joined_ok(q0, actor@);
            assert forall|a: int, b: int| 0 <= a < b < f.queues@.len() implies (
            #[trigger] f.queues@[a]).path@ != (#[trigger] f.queues@[b]).path@ by {
                assert(f.queues@[a].path == m.queues@[a].path);
                assert(f.queues@[b].path == m.queues@[b].path);
                if b < o.queues@.len() {
                    assert(o.queues@[a].path@ != o.queues@[b].path@);
                } else {
                    assert(!o.listed(path@, a));
                }
            }
            assert forall|a: int| 0 <= a < f.queues@.len() implies queue_ok(
                slugs(#[trigger] f.queues@[a]),
            ) by {
                if a != at {
                    assert(queue_ok(slugs(o.queues@[a])));
                }
            }
            assert(f.wf());
            assert(f.listed(path@, at as int));
            f.lemma_listed(path@, at as int);
            assert forall|p: Seq<char>| p != path@ implies #[trigger] f.waiting(p) == o.waiting(
                p,
            ) by {
                if exists|k: int| o.listed(p, k) {
                    let k = choose|k: int| o.listed(p, k);
                    assert(f.listed(p, k));
                    f.lemma_listed(p, k);
                    o.lemma_listed(p, k);
                } else {
                    assert forall|k: int| !f.listed(p, k) by {
                        assert(!o.listed(p, k));
                    }
                }
            }
        }
    }

    /// Take out the queues of the paths that nobody holds any more, in the
    /// order they were opened.
    pub fn take_freed(&mut self, held: &Vec<String>) -> (freed: Vec<FileQueue>)
        requires
            old(self).wf(),
        ensures
            final(self).wf(),
            freed@ == not_held(old(self).queues@, held@),
            forall|p: Seq<char>| #[trigger]
                final(self).waiting(p) == (if is_held(held@, p) {
                    old(self).waiting(p)
                } else {
                    Seq::empty()
                }),
    {
        let ghost o = *self;
        let ghost all = self.queues@;
        let mut todo: Vec<FileQueue> = Vec::new();
        std::mem::swap(&mut todo, &mut self.queues);
        let mut kept: Vec<FileQueue> = Vec::new();
        let mut freed: Vec<FileQueue> = Vec::new();
        let ghost mut n: int = 0;
        assert(all.skip(0) =~= all);
        while todo.len() > 0
            invariant
                0 <= n <= all.len(),
                todo@ == all.skip(n),
                freed@ == not_held(all.take(n), held@),
                kept@ == still_held(all.take(n), held@),
            decreases todo@.len(),
        {
            let q = todo.remove(0);
            proof {
                assert(q == all[n]);
                assert(all.take(n + 1).drop_last() =~= all.take(n));
                assert(all.take(n + 1).last() == q);
                assert(todo@ =~= all.skip(n + 1));
                n = n + 1;
            }
            if holds(held, q.path.as_str()) {
                kept.push(q);
            } else {
                freed.push(q);
            }
        }
        assert(all.take(n) =~= all);
        self.queues = kept;
        proof {
            let f = *self;
            lemma_still_held(all, held@);
            assert forall|a: int, b: int| 0 <= a < b < f.queues@.len() implies (
            #[trigger] f.queues@[a]).path@ != (#[trigger] f.queues@[b]).path@ by {
                let x = kept_from(all, held@, a);
                let y = kept_from(all, held@, b);
                assert(all[x] == f.queues@[a] && all[y] == f.queues@[b] && x < y);
                assert(o.queues@[x].path@ != o.queues@[y].path@);
            }
            assert forall|a: int| 0 <= a < f.queues@.len() implies queue_ok(
                slugs(#[trigger] f.queues@[a]),
            ) by {
                let x = kept_from(all, held@, a);
                assert(queue_ok(slugs(o.queues@[x])));
            }
            assert(f.wf());
            assert forall|p: Seq<char>| #[trigger]
                f.waiting(p) == (if is_held(held@, p) {
                    o.waiting(p)
                } else {
                    Seq::empty()
                }) by {
                if exists|k: int| f.listed(p, k) {
                    let k = choose|k: int| f.listed(p, k);
                    let x = kept_from(all, held@, k);
                    assert(o.listed(p, x));
                    o.lemma_listed(p, x);
                    f.lemma_listed(p, k);
                } else if is_held(held@, p) && exists|k: int| o.listed(p, k) {
                    let k = choose|k: int| o.listed(p, k);
                    lemma_held_is_kept(all, held@, k);
                    let x = choose|x: int|
                        0 <= x < still_held(all, held@).len() && #[trigger] still_held(
                            all,
                            held@,
                        )[x] == all[k];
                    assert(f.listed(p, x));
                }
            }
        }
        freed
    }
}

/// Somebody holds `path`.
pub open spec fn is_held(held: Seq<String>, path: Seq<char>) -> bool {
    exists|i: int| 0 <= i < held.len() && (#[trigger] held[i])@ == path
}

fn holds(held: &Vec<String>, path: &str) -> (r: bool)
    ensures
        r == is_held(held@, path@),
{
    let mut i: usize = 0;
    while i < held.len()
        invariant
            i <= held@.len(),
            forall|k: int| 0 <= k < i ==> (#[trigger] held@[k])@ != path@,
        decreases held.len() - i,
    {
        if same_text(held[i].as_str(), path) {
            return true;
        }
        i = i + 1;
    }
    false
}

/// The queues of the paths that nobody holds.
pub open spec fn not_held(qs: Seq<FileQueue>, held: Seq<String>) -> Seq<FileQueue>
    decreases qs.len(),
{
    if qs.len() == 0 {
        Seq::empty()
    } else {
        let before = not_held(qs.drop_last(), held);
        if is_held(held, qs.last().path@) {
            before
        } else {
            before.push(qs.last())
        }
    }
}

/// The queues of the paths that somebody holds.
spec fn still_held(qs: Seq<FileQueue>, held: Seq<String>) -> Seq<FileQueue>
    decreases qs.len(),
{
    if qs.len() == 0 {
        Seq::empty()
    } else {
        let before = still_held(qs.drop_last(), held);
        if is_held(held, qs.last().path@) {
            before.push(qs.last())
        } else {
            before
        }
    }
}

/// Where the `i`-th queue that is kept stood.
spec fn kept_from(qs: Seq<FileQueue>, held: Seq<String>, i: int) -> int
    decreases qs.len(),
{
    if qs.len() == 0 {
        0
    } else {
        let before = still_held(qs.drop_last(), held);
        if i < before.len() {
            kept_from(qs.drop_last(), held, i)
        } else {
            qs.len() - 1
        }
    }
}

proof fn lemma_still_held(qs: Seq<FileQueue>, held: Seq<String>)
    ensures
        forall|i: int|
            0 <= i < still_held(qs, held).len() ==> {
                let x = #[trigger] kept_from(qs, held, i);
                &&& 0 <= x < qs.len()
                &&& qs[x] == still_held(qs, held)[i]
                &&& is_held(held, qs[x].path@)
            },
        forall|i: int, j: int|
            0 <= i < j < still_held(qs, held).len() ==> #[trigger] kept_from(qs, held, i)
                < #[trigger] kept_from(qs, held, j),
    decreases qs.len(),
{
    if qs.len() > 0 {
        let rest = qs.drop_last();
        lemma_still_held(rest, held);
        let b = still_held(rest, held);
        assert forall|i: int| 0 <= i < still_held(qs, held).len() implies {
            let x = #[trigger] kept_from(qs, held, i);
            &&& 0 <= x < qs.len()
            &&& qs[x] == still_held(qs, held)[i]
            &&& is_held(held, qs[x].path@)
        } by {
            if i < b.len() {
                let x = kept_from(rest, held, i);
                assert(rest[x] == qs[x]);
            }
        }
        assert forall|i: int, j: int| 0 <= i < j < still_held(qs, held).len() implies
            #[trigger] kept_from(qs, held, i) < #[trigger] kept_from(qs, held, j) by {
            if j < b.len() {
                assert(kept_from(rest, held, i) < kept_from(rest, held, j));
            } else {
                assert(kept_from(rest, held, i) < rest.len());
            }
        }
    }
}

proof fn lemma_held_is_kept(qs: Seq<FileQueue>, held: Seq<String>, k: int)
    requires
        0 <= k < qs.len(),
        is_held(held, qs[k].path@),
    ensures
        exists|x: int|
            0 <= x < still_held(qs, held).len() && #[trigger] still_held(qs, held)[x] == qs[k],
    decreases qs.len(),
{
    let rest = qs.drop_last();
    let b = still_held(rest, held);
    let a = still_held(qs, held);
    if k < rest.len() {
        lemma_held_is_kept(rest, held, k);
        let x = choose|x: int| 0 <= x < b.len() && #[trigger] b[x] == rest[k];
        assert(a[x] == qs[k]);
    } else {
        assert(a[b.len() as int] == qs[k]);
    }
}

proof fn lemma_joined_ok(q: Seq<Seq<char>>, actor: Seq<char>)
    requires
        queue_ok(q),
    ensures
        queue_ok(joined_queue(q, actor)),
{
    let r = joined_queue(q, actor);
    if !q.contains(actor) {
        let d: int = if q.len() >= FILE_WAITERS_CAP {
            1
        } else {
            0
        };
        assert forall|i: int, j: int| 0 <= i < r.len() && 0 <= j < r.len() && i != j implies r[i]
            != r[j] by {
            if i < r.len() - 1 {
                assert(r[i] == q[i + d]);
            }
            if j < r.len() - 1 {
                assert(r[j] == q[j + d]);
            }
        }
    }
}

} // verus!

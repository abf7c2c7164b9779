//! What a claim on a file promises those who wait for it.

use crate::comms::{notices, records_of};
use crate::files::{joined_queue, not_held, FileQueue, FileWaiters};
use crate::renderer::Renderer;
use crate::room::Recorded;
use crate::wire::OutPayload;
use vstd::prelude::*;

verus! {

/// Nobody holds `path`.
pub open spec fn free(held: Seq<String>, path: Seq<char>) -> bool {
    forall|i: int| 0 <= i < held.len() ==> (#[trigger] held[i])@ != path
}

/// `r` is word from terminite to `to` that `path` is free.
pub open spec fn says_free(r: Recorded, to: Seq<char>, path: Seq<char>) -> bool {
    &&& r.actor@ == "terminite"@
    &&& r.to matches Some(t) && t@ == to
    &&& r.text@ == "file is now free: "@ + path
}

proof fn lemma_freed(qs: Seq<FileQueue>, held: Seq<String>, q: int)
    requires
        0 <= q < qs.len(),
        free(held, qs[q].path@),
    ensures
        exists|f: int| 0 <= f < not_held(qs, held).len() && #[trigger] not_held(qs, held)[f] == qs[q],
    decreases qs.len(),
{
    let rest = qs.drop_last();
    let freed = not_held(qs, held);
    if q < rest.len() {
        lemma_freed(rest, held, q);
        let f = choose|f: int|
            0 <= f < not_held(rest, held).len() && #[trigger] not_held(rest, held)[f] == rest[q];
        assert(freed[f] == qs[q]);
    } else {
        assert(freed[freed.len() - 1] == qs[q]);
    }
}

/// Where the `f`-th queue that is taken out stood.
proof fn lemma_freed_from(qs: Seq<FileQueue>, held: Seq<String>) -> (at: Seq<int>)
    ensures
        at.len() == not_held(qs, held).len(),
        forall|f: int|
            0 <= f < at.len() ==> 0 <= #[trigger] at[f] < qs.len() && qs[at[f]] == not_held(
                qs,
                held,
            )[f] && free(held, qs[at[f]].path@),
        forall|f: int, g: int| 0 <= f < g < at.len() ==> #[trigger] at[f] < #[trigger] at[g],
    decreases qs.len(),
{
    if qs.len() == 0 {
        Seq::empty()
    } else {
        let rest = qs.drop_last();
        let had = lemma_freed_from(rest, held);
        assert forall|f: int| 0 <= f < had.len() implies 0 <= #[trigger] had[f] < qs.len()
            && qs[had[f]] == not_held(qs, held)[f] && free(held, qs[had[f]].path@) by {
            assert(rest[had[f]] == qs[had[f]]);
        }
        if crate::files::is_held(held, qs.last().path@) {
            had
        } else {
            assert(free(held, qs.last().path@)) by {
                assert forall|i: int| 0 <= i < held.len() implies (#[trigger] held[i])@
                    != qs.last().path@ by {}
            }
            had.push(qs.len() - 1)
        }
    }
}

proof fn lemma_noticed(freed: Seq<FileQueue>, f: int, w: int)
    requires
        0 <= f < freed.len(),
        0 <= w < freed[f].waiters@.len(),
    ensures
        exists|n: int|
            {
                &&& 0 <= n < notices(freed).len()
                &&& (#[trigger] notices(freed)[n]).0 == freed[f].waiters@[w]@
                &&& notices(freed)[n].1 == "file is now free: "@ + freed[f].path@
            },
    decreases freed.len(),
{
    let rest = freed.drop_last();
    let ns = notices(freed);
    let before = notices(rest);
    if f < rest.len() {
        lemma_noticed(rest, f, w);
        let n = choose|n: int|
            {
                &&& 0 <= n < before.len()
                &&& (#[trigger] before[n]).0 == rest[f].waiters@[w]@
                &&& before[n].1 == "file is now free: "@ + rest[f].path@
            };
        assert(ns[n] == before[n]);
    } else {
        let n = before.len() + w;
        assert(ns[n].0 == freed[f].waiters@[w]@);
    }
}

proof fn lemma_notice_from(freed: Seq<FileQueue>, n: int) -> (r: (int, int))
    requires
        0 <= n < notices(freed).len(),
    ensures
        0 <= r.0 < freed.len(),
        0 <= r.1 < freed[r.0].waiters@.len(),
        notices(freed)[n].0 == freed[r.0].waiters@[r.1]@,
        notices(freed)[n].1 == "file is now free: "@ + freed[r.0].path@,
    decreases freed.len(),
{
    let rest = freed.drop_last();
    let before = notices(rest);
    if n < before.len() {
        let r = lemma_notice_from(rest, n);
        assert(freed[r.0] == rest[r.0]);
        r
    } else {
        (freed.len() - 1, n - before.len())
    }
}

/// Everyone who waited for a path that is now free is told so.
pub proof fn law_every_waiter_is_told(
    qs: Seq<FileQueue>,
    held: Seq<String>,
    rs: Seq<Recorded>,
    q: int,
    w: int,
)
    requires
        records_of(rs, notices(not_held(qs, held))),
        0 <= q < qs.len(),
        free(held, qs[q].path@),
        0 <= w < qs[q].waiters@.len(),
    ensures
        exists|k: int|
            0 <= k < rs.len() && says_free(#[trigger] rs[k], qs[q].waiters@[w]@, qs[q].path@),
{
    lemma_freed(qs, held, q);
    let freed = not_held(qs, held);
    let f = choose|f: int| 0 <= f < freed.len() && #[trigger] freed[f] == qs[q];
    lemma_noticed(freed, f, w);
    let n = choose|n: int|
        {
            &&& 0 <= n < notices(freed).len()
            &&& (#[trigger] notices(freed)[n]).0 == freed[f].waiters@[w]@
            &&& notices(freed)[n].1 == "file is now free: "@ + freed[f].path@
        };
    assert(says_free(rs[n], qs[q].waiters@[w]@, qs[q].path@));
}

/// Nobody else is told: each message goes to somebody who waited for the path
/// that it names, and that path is free.
pub proof fn law_only_waiters_are_told(
    qs: Seq<FileQueue>,
    held: Seq<String>,
    rs: Seq<Recorded>,
    k: int,
)
    requires
        records_of(rs, notices(not_held(qs, held))),
        0 <= k < rs.len(),
    ensures
        exists|q: int, w: int|
            {
                &&& 0 <= q < qs.len()
                &&& free(held, qs[q].path@)
                &&& 0 <= w < qs[q].waiters@.len()
                &&& says_free(rs[k], (#[trigger] qs[q].waiters@[w])@, qs[q].path@)
            },
{
    let freed = not_held(qs, held);
    let (f, w) = lemma_notice_from(freed, k);
    let at = lemma_freed_from(qs, held);
    let q = at[f];
    assert(says_free(rs[k], qs[q].waiters@[w]@, qs[q].path@));
}

/// How many wait in `qs` for a path that is free.
pub open spec fn count_free(qs: Seq<FileQueue>, held: Seq<String>) -> nat
    decreases qs.len(),
{
    if qs.len() == 0 {
        0
    } else {
        count_free(qs.drop_last(), held) + (if free(held, qs.last().path@) {
            qs.last().waiters@.len()
        } else {
            0
        })
    }
}

/// As many are told as waited for a path that is free, so that none is told
/// twice.
pub proof fn law_each_is_told_once(qs: Seq<FileQueue>, held: Seq<String>, rs: Seq<Recorded>)
    requires
        records_of(rs, notices(not_held(qs, held))),
    ensures
        rs.len() == count_free(qs, held),
{
    lemma_count(qs, held);
}

proof fn lemma_count(qs: Seq<FileQueue>, held: Seq<String>)
    ensures
        notices(not_held(qs, held)).len() == count_free(qs, held),
    decreases qs.len(),
{
    if qs.len() > 0 {
        let rest = qs.drop_last();
        lemma_count(rest, held);
        let before = not_held(rest, held);
        if !crate::files::is_held(held, qs.last().path@) {
            assert(free(held, qs.last().path@)) by {
                assert forall|i: int| 0 <= i < held.len() implies (#[trigger] held[i])@
                    != qs.last().path@ by {}
            }
            assert(before.push(qs.last()).drop_last() =~= before);
        } else {
            let i = choose|i: int| 0 <= i < held.len() && (#[trigger] held[i])@ == qs.last().path@;
            assert(held[i]@ == qs.last().path@);
        }
    }
}

/// Who asks for a held file stands in its line, behind all who came before; who
/// stood there keeps their place, but for the first where sixteen wait already.
pub proof fn law_waiter_joins_the_line(q: Seq<Seq<char>>, actor: Seq<char>, i: int, j: int)
    requires
        0 <= i < j < q.len(),
    ensures
        ({
            let r = joined_queue(q, actor);
            &&& r.contains(actor)
            &&& q.contains(actor) ==> r == q
            &&& !q.contains(actor) ==> r.last() == actor
            &&& q.len() < 16 ==> r.len() >= q.len() && r[i] == q[i] && r[j] == q[j]
            &&& !q.contains(actor) && q.len() >= 16 ==> r.len() == q.len() && r[j - 1] == q[j]
        }),
{
    let r = joined_queue(q, actor);
    if !q.contains(actor) {
        assert(r[r.len() - 1] == actor);
    }
}

/// Who asks for a file that another holds is told who holds it, and waits for
/// it, whoever else does; the lines of other files stay. Who asks for a free
/// file has it, and nobody waits.
pub proof fn law_refused_claim_waits(
    before: Renderer,
    after: Renderer,
    actor: Seq<char>,
    path: Seq<char>,
    conflict: Option<String>,
    r: OutPayload,
    other: Seq<char>,
)
    requires
        after.claim_answered(before, actor, path, conflict, r),
    ensures
        r matches OutPayload::FileClaim { path: p, conflict: c } && p@ == path && c == conflict,
        conflict is Some ==> after.file_waiters.waiting(path).contains(actor),
        conflict is None ==> after.file_waiters == before.file_waiters,
        other != path ==> after.file_waiters.waiting(other) == before.file_waiters.waiting(other),
        after.room == before.room,
{
    if conflict is Some {
        let q = before.file_waiters.waiting(path);
        let j = joined_queue(q, actor);
        if !q.contains(actor) {
            assert(j[j.len() - 1] == actor);
        }
    }
}

/// Who was refused a file is told when it is free: from the refusal until the
/// path is held by nobody, whatever happens to other files.
pub proof fn law_refused_claimant_is_told(
    before: Renderer,
    after: Renderer,
    actor: Seq<char>,
    path: Seq<char>,
    conflict: Option<String>,
    r: OutPayload,
    held: Seq<String>,
    rs: Seq<Recorded>,
)
    requires
        after.claim_answered(before, actor, path, conflict, r),
        after.file_waiters.wf(),
        conflict is Some,
        free(held, path),
        records_of(rs, notices(not_held(after.file_waiters.queues@, held))),
    ensures
        exists|k: int| 0 <= k < rs.len() && says_free(#[trigger] rs[k], actor, path),
{
    law_refused_claim_waits(before, after, actor, path, conflict, r, path);
    let f = after.file_waiters;
    let line = f.waiting(path);
    let w = choose|w: int| 0 <= w < line.len() && line[w] == actor;
    let q = choose|q: int| f.listed(path, q);
    f.lemma_listed(path, q);
    assert(line[w] == f.queues@[q].waiters@[w]@);
    law_every_waiter_is_told(f.queues@, held, rs, q, w);
    let k = choose|k: int| 0 <= k < rs.len() && says_free(#[trigger] rs[k], actor, path);
    assert(says_free(rs[k], actor, path));
}

/// The first to ask opens the line.
pub proof fn law_first_waiter_opens_the_line(actor: Seq<char>)
    ensures
        joined_queue(Seq::empty(), actor) == seq![actor],
{
    assert(joined_queue(Seq::empty(), actor) =~= seq![actor]);
}

/// A line is told as it stands: who waits for a path is who its queue lists.
pub proof fn law_line_is_its_queue(files: FileWaiters, q: int, w: int)
    requires
        files.wf(),
        0 <= q < files.queues@.len(),
        0 <= w < files.queues@[q].waiters@.len(),
    ensures
        files.waiting(files.queues@[q].path@).len() == files.queues@[q].waiters@.len(),
        files.waiting(files.queues@[q].path@)[w] == files.queues@[q].waiters@[w]@,
{
    files.lemma_listed(files.queues@[q].path@, q);
}

} // verus!

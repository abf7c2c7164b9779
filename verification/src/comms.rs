//! The room's messages about files that have become free.

use crate::files::{not_held, FileQueue, FileWaiters};
use crate::room::{directed, records, Recorded};
use vstd::prelude::*;

verus! {

/// What a waiter is told about a path.
pub open spec fn free_text(path: Seq<char>) -> Seq<char> {
    "file is now free: "@ + path
}

/// The notices that freed queues call for: who is told what, in order.
pub open spec fn notices(freed: Seq<FileQueue>) -> Seq<(Seq<char>, Seq<char>)>
    decreases freed.len(),
{
    if freed.len() == 0 {
        Seq::empty()
    } else {
        let q = freed.last();
        notices(freed.drop_last()) + Seq::new(
            q.waiters@.len(),
            |i: int| (q.waiters@[i]@, free_text(q.path@)),
        )
    }
}

/// `rs` record what terminite itself tells, notice by notice.
pub open spec fn records_of(rs: Seq<Recorded>, ns: Seq<(Seq<char>, Seq<char>)>) -> bool {
    &&& rs.len() == ns.len()
    &&& forall|i: int|
        0 <= i < ns.len() ==> records(#[trigger] rs[i], "terminite"@, Some(ns[i].0), ns[i].1)
}

/// What is told of the paths that are free, and who waits on.
pub open spec fn freed_told(
    before: FileWaiters,
    after: FileWaiters,
    held: Seq<String>,
    r: Seq<Recorded>,
) -> bool {
    &&& forall|p: Seq<char>| #[trigger]
        after.waiting(p) == (if crate::files::is_held(held, p) {
            before.waiting(p)
        } else {
            Seq::empty()
        })
    &&& records_of(r, notices(not_held(before.queues@, held)))
}

/// What there is to tell those who wait for a path that is now free, in order;
/// freed paths drop their queue. The waiter is notified instead of polling.
pub fn notify_freed_waiters(files: &mut FileWaiters, held: &Vec<String>) -> (r: Vec<Recorded>)
    requires
        old(files).wf(),
    ensures
        final(files).wf(),
        freed_told(*old(files), *final(files), held@, r@),
{
    let freed = files.take_freed(held);
    let mut r: Vec<Recorded> = Vec::new();
    let mut i: usize = 0;
    while i < freed.len()
        invariant
            i <= freed@.len(),
            records_of(r@, notices(freed@.take(i as int))),
        decreases freed.len() - i,
    {
        let q = &freed[i];
        let mut text = "file is now free: ".to_owned();
        text.append(q.path.as_str());
        let ghost before = notices(freed@.take(i as int));
        let ghost part = Seq::new(
            q.waiters@.len(),
            |k: int| (q.waiters@[k]@, free_text(q.path@)),
        );
        let mut j: usize = 0;
        proof {
            assert(before + part.take(0) =~= before);
        }
        while j < q.waiters.len()
            invariant
                j <= q.waiters@.len(),
                text@ == free_text(q.path@),
                part == Seq::new(
                    q.waiters@.len(),
                    |k: int| (q.waiters@[k]@, free_text(q.path@)),
                ),
                records_of(r@, before + part.take(j as int)),
            decreases q.waiters.len() - j,
        {
            let m = directed("terminite", Some(q.waiters[j].as_str()), text.as_str());
            r.push(m);
            proof {
                assert(before + part.take(j + 1) =~= (before + part.take(j as int)).push(
                    part[j as int],
                ));
            }
            j = j + 1;
        }
        proof {
            assert(part.take(part.len() as int) =~= part);
            assert(freed@.take(i + 1).drop_last() =~= freed@.take(i as int));
            assert(freed@.take(i + 1).last() == *q);
            assert(before + part =~= notices(freed@.take(i + 1)));
        }
        i = i + 1;
    }
    assert(freed@.take(freed@.len() as int) =~= freed@);
    r
}

} // verus!

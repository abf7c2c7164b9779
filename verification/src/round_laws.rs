//! What the rounds of the window do: type what is held, send what is due, and
//! tell those who wait.

use crate::comms::freed_told;
use crate::delivery_laws::law_every_stall_is_answered;
use crate::files::FileWaiters;
use crate::files_laws::{
    free, law_every_waiter_is_told, law_only_waiters_are_told, says_free,
};
use crate::floor::{floor_line, FloorSubmit, Injection, SlugPane, Surroundings};
use crate::floor_laws::{
    are_those_held, in_store, law_due_enters_are_sent, law_every_job_is_typed,
    law_floor_types_all, law_floor_types_nothing_else, law_floor_opens, law_line_quotes_all,
    law_only_jobs_are_typed, may_type, quote, quote_at, reads_at, serves, sits_at,
};
use crate::renderer::Renderer;
use crate::room::{push_views, stall_pushes, Push, Recorded, RoomMessage};
use crate::tab::TabId;
use vstd::prelude::*;

verus! {

/// What surrounds the typing in a window.
pub open spec fn around(w: Renderer, now: u64) -> Surroundings {
    Surroundings { focused: w.focused, active_tab: w.ws.active_tab().id.0, now }
}

/// `line` quotes every message of `ms` with its sender, in order.
pub open spec fn quotes_all(line: Seq<char>, ms: Seq<RoomMessage>) -> bool {
    &&& reads_at(line, 0, "[terminite room] "@)
    &&& forall|k: int| 0 <= k < ms.len() ==> reads_at(line, quote_at(ms, k), quote(#[trigger] ms[k]))
    &&& line.len() == quote_at(ms, ms.len() - 1) + quote(ms.last()).len()
}

/// With deliveries on, whatever is held for an actor without a receiver is
/// typed into the pane that it sits in, as soon as that disturbs nobody: one line
/// there quotes all of it, and nothing is held for the actor any more.
pub proof fn law_held_messages_are_typed(
    before: Renderer,
    after: Renderer,
    panes: Vec<SlugPane>,
    store: Vec<RoomMessage>,
    now: u64,
    r: Vec<Injection>,
    i: int,
    p: int,
    k: int,
) -> (ms: Seq<RoomMessage>)
    requires
        before.wf(),
        after.floor_typed(before, &panes, &store, now, r),
        before.config.comms_delivery,
        0 <= i < before.room.actors@.len(),
        sits_at(panes@, before.room.actors@[i].slug@, p),
        may_type(before.room.actors@[i]@, panes@[p].pane, before.floor.human@, around(before, now)),
        0 <= k < before.room.actors@[i].pending@.len(),
        in_store(store@, before.room.actors@[i].pending@[k]),
        before.ws.tree().has_tab(TabId(panes@[p].pane)),
        now + 120_000_000 <= u64::MAX,
    ensures
        are_those_held(ms, store@, before.room.actors@[i].pending@),
        exists|m: int|
            0 <= m < ms.len() && (#[trigger] ms[m]).message_id
                == before.room.actors@[i].pending@[k],
        exists|x: int|
            0 <= x < r@.len() && (#[trigger] r@[x]).pane == panes@[p].pane && quotes_all(
                r@[x].line@,
                ms,
            ),
        after.room.actor(before.room.actors@[i].slug@).pending.len() == 0,
        after.room.actor(before.room.actors@[i].slug@).conn is None,
{
    let a = before.room.actors@[i];
    let s = around(before, now);
    let human = before.floor.human@;
    let t = before.ws.tree();
    let jobs = before.floor_jobs(panes@, store@, now);
    assert(before.surroundings(now) == s);
    law_floor_types_all(before.room.actors@, panes@, store@, human, s, i, p, k);
    let j = choose|j: int|
        {
            &&& 0 <= j < jobs.len()
            &&& (#[trigger] jobs[j]).0 == panes@[p].pane
            &&& are_those_held(jobs[j].1, store@, a.pending@)
            &&& exists|m: int|
                0 <= m < jobs[j].1.len() && (#[trigger] jobs[j].1[m]).message_id == a.pending@[k]
        };
    let ms = jobs[j].1;
    law_every_job_is_typed(jobs, t, now, j);
    let lines = crate::deliveries::lines_for(jobs, t);
    let x = choose|x: int|
        0 <= x < lines.len() && (#[trigger] lines[x]).0 == jobs[j].0 && lines[x].1 == floor_line(ms);
    assert(r@.map_values(|i: Injection| crate::deliveries::line_view(i))[x] == lines[x]);
    assert(r@[x].pane == panes@[p].pane);
    assert(r@[x].line@ == floor_line(ms));
    assert forall|q: int| 0 <= q < ms.len() implies reads_at(
        r@[x].line@,
        quote_at(ms, q),
        quote(#[trigger] ms[q]),
    ) by {
        law_line_quotes_all(ms, q);
    }
    law_line_quotes_all(ms, 0);
    assert(quotes_all(r@[x].line@, ms));
    before.room.lemma_listed(a.slug@, i);
    law_floor_opens(a@, panes@, a.slug@, p, store@, human, s);
    assert(after.room.actor(a.slug@).pending.len() == 0);
    ms
}

/// Nothing else is typed: every line quotes all that is held for some actor that
/// sits in the pane, which has its tab still. With deliveries off, nothing is
/// typed and everything stays held.
pub proof fn law_typed_lines_are_held_messages(
    before: Renderer,
    after: Renderer,
    panes: Vec<SlugPane>,
    store: Vec<RoomMessage>,
    now: u64,
    r: Vec<Injection>,
    x: int,
    slug: Seq<char>,
)
    requires
        after.floor_typed(before, &panes, &store, now, r),
    ensures
        !before.config.comms_delivery ==> r@.len() == 0 && after.room.actor(slug)
            == before.room.actor(slug),
        0 <= x < r@.len() ==> before.ws.tree().has_tab(TabId(r@[x].pane)) && exists|
            i: int,
            ms: Seq<RoomMessage>,
        |
            {
                &&& 0 <= i < before.room.actors@.len()
                &&& #[trigger] serves(
                    (r@[x].pane, ms),
                    before.room.actors@[i],
                    panes@,
                    store@,
                    before.floor.human@,
                    around(before, now),
                )
                &&& quotes_all(r@[x].line@, ms)
            },
        after.ws == before.ws,
        after.file_waiters == before.file_waiters,
{
    let t = before.ws.tree();
    let jobs = before.floor_jobs(panes@, store@, now);
    let lines = crate::deliveries::lines_for(jobs, t);
    let views = r@.map_values(|i: Injection| crate::deliveries::line_view(i));
    assert(views.len() == r@.len());
    assert(before.surroundings(now) == around(before, now));
    if 0 <= x < r@.len() {
        assert(views[x] == (r@[x].pane, r@[x].line@));
        law_only_jobs_are_typed(jobs, t, x);
        let j = choose|j: int|
            0 <= j < jobs.len() && (#[trigger] jobs[j]).0 == lines[x].0 && floor_line(jobs[j].1)
                == lines[x].1;
        let at = law_floor_types_nothing_else(
            before.room.actors@,
            panes@,
            store@,
            before.floor.human@,
            around(before, now),
        );
        let ms = jobs[j].1;
        assert(0 <= at[j] < before.room.actors@.len());
        assert(serves(
            jobs[j],
            before.room.actors@[at[j]],
            panes@,
            store@,
            before.floor.human@,
            around(before, now),
        ));
        assert(jobs[j] == (r@[x].pane, ms));
        assert forall|q: int| 0 <= q < ms.len() implies reads_at(
            r@[x].line@,
            quote_at(ms, q),
            quote(#[trigger] ms[q]),
        ) by {
            law_line_quotes_all(ms, q);
        }
        law_line_quotes_all(ms, 0);
        assert(quotes_all(r@[x].line@, ms));
    }
}

/// An Enter goes to every pane whose line has been there long enough, in order,
/// and to no other; the others keep waiting.
pub proof fn law_enters_go_out_when_due(before: Renderer, after: Renderer, now: u64, panes: Vec<u64>)
    requires
        after.enters_sent(before, now, panes),
    ensures
        panes@ == before.floor.submits@.filter(|s: FloorSubmit| s.deadline <= now).map_values(
            |s: FloorSubmit| s.pane,
        ),
        after.floor.submits@ == before.floor.submits@.filter(|s: FloorSubmit| s.deadline > now),
        after.floor.human == before.floor.human,
        after.room == before.room,
        after.ws == before.ws,
{
    law_due_enters_are_sent(before.floor.submits@, now);
}

/// Everyone who waits for a path that nobody holds is told that it is free, and
/// waits no more; who waits for a held path waits on and is told nothing.
pub proof fn law_waiters_hear_of_free_files(
    before: FileWaiters,
    after: FileWaiters,
    held: Seq<String>,
    r: Seq<Recorded>,
    q: int,
    w: int,
)
    requires
        freed_told(before, after, held, r),
        before.wf(),
        0 <= q < before.queues@.len(),
        0 <= w < before.queues@[q].waiters@.len(),
    ensures
        free(held, before.queues@[q].path@) ==> exists|k: int|
            0 <= k < r.len() && says_free(
                #[trigger] r[k],
                before.queues@[q].waiters@[w]@,
                before.queues@[q].path@,
            ),
        free(held, before.queues@[q].path@) ==> after.waiting(before.queues@[q].path@).len() == 0,
        !free(held, before.queues@[q].path@) ==> after.waiting(before.queues@[q].path@)
            == before.waiting(before.queues@[q].path@),
{
    let path = before.queues@[q].path@;
    if free(held, path) {
        law_every_waiter_is_told(before.queues@, held, r, q, w);
    }
}

/// Whoever is told that a path is free has waited for it, and nobody holds it.
pub proof fn law_only_those_who_wait_hear(
    before: FileWaiters,
    after: FileWaiters,
    held: Seq<String>,
    r: Seq<Recorded>,
    k: int,
)
    requires
        freed_told(before, after, held, r),
        0 <= k < r.len(),
    ensures
        exists|q: int, w: int|
            {
                &&& 0 <= q < before.queues@.len()
                &&& free(held, before.queues@[q].path@)
                &&& 0 <= w < before.queues@[q].waiters@.len()
                &&& says_free(
                    r[k],
                    (#[trigger] before.queues@[q].waiters@[w])@,
                    before.queues@[q].path@,
                )
            },
{
    law_only_waiters_are_told(before.queues@, held, r, k);
}

/// The window tells its waiters, and changes nothing else.
pub proof fn law_window_tells_its_waiters(
    before: Renderer,
    after: Renderer,
    held: Vec<String>,
    r: Vec<Recorded>,
    q: int,
    w: int,
)
    requires
        before.wf(),
        after.waiters_told(before, &held, r),
        0 <= q < before.file_waiters.queues@.len(),
        0 <= w < before.file_waiters.queues@[q].waiters@.len(),
        free(held@, before.file_waiters.queues@[q].path@),
    ensures
        exists|k: int|
            0 <= k < r@.len() && says_free(
                #[trigger] r@[k],
                before.file_waiters.queues@[q].waiters@[w]@,
                before.file_waiters.queues@[q].path@,
            ),
        after.file_waiters.waiting(before.file_waiters.queues@[q].path@).len() == 0,
        after.ws == before.ws,
        after.room == before.room,
{
    law_waiters_hear_of_free_files(before.file_waiters, after.file_waiters, held@, r@, q, w);
}

/// A look at the stall watches sends what each of them calls for, by the
/// window's setting, and leaves panes, tabs and files alone.
pub proof fn law_window_answers_stalls(
    before: Renderer,
    after: Renderer,
    store: Vec<RoomMessage>,
    now_ms: u64,
    now: u64,
    r: Vec<Push>,
    i: int,
    k: int,
)
    requires
        after.stalls_checked(before, &store, now_ms, now, r),
        0 <= i < before.room.actors@.len(),
    ensures
        ({
            let a = before.room.actors@[i];
            let part = stall_pushes(
                a@,
                a.slug@,
                store@,
                before.config.comms_delivery,
                now_ms,
                now,
            );
            0 <= k < part.len() ==> exists|x: int|
                0 <= x < r@.len() && (#[trigger] r@[x]).target@ == part[k].0 && r@[x].conn
                    == part[k].1 && r@[x].message == part[k].2
        }),
        !before.config.comms_delivery ==> r@.len() == 0,
        after.ws == before.ws,
        after.floor == before.floor,
{
    let on = before.config.comms_delivery;
    let a = before.room.actors@[i];
    let part = stall_pushes(a@, a.slug@, store@, on, now_ms, now);
    let views = push_views(r@);
    assert(views.len() == r@.len());
    if 0 <= k < part.len() {
        law_every_stall_is_answered(before.room.actors@, store@, on, now_ms, now, i, k);
        let x = choose|x: int| 0 <= x < views.len() && views[x] == part[k];
        assert(r@[x].target@ == part[k].0);
    }
    if !on && r@.len() > 0 {
        let x = crate::delivery_laws::law_only_stalls_are_answered(
            before.room.actors@,
            store@,
            on,
            now_ms,
            now,
            0,
        );
    }
}

/// A receiver that takes a push has thirty seconds to act on it; one that does
/// not take it is no receiver any more. Nobody else is touched.
pub proof fn law_window_follows_up_pushes(
    before: Renderer,
    after: Renderer,
    target: &str,
    conn: u64,
    sent: bool,
    now: u64,
    other: Seq<char>,
)
    requires
        after.push_settled(before, target, conn, sent, now),
        now + 30_000_000_000 <= u64::MAX,
        before.room.actor(target@).conn == Some(conn),
    ensures
        sent ==> after.room.actor(target@).watch is Some && after.room.actor(
            target@,
        ).watch->0.deadline == now + 30_000_000_000 && after.room.actor(target@).conn == Some(conn),
        !sent ==> after.room.actor(target@).conn is None && after.room.actor(target@).watch
            == before.room.actor(target@).watch,
        after.room.actor(target@).pending == before.room.actor(target@).pending,
        other != target@ ==> after.room.actor(other) == before.room.actor(other),
        after.ws == before.ws,
{
}

} // verus!

//! What the floor types: everything that is held for an actor, into its pane,
//! and nothing else.

use crate::deliveries::{lines_for, submits_for};
use crate::floor::{
    floor_line, floor_open, floor_waits, jobs_for, joined, pane_of, typed_in, Floor, FloorSubmit,
    SlugPane, Surroundings,
};
use crate::room::{resolved, stored, Actor, ActorState, RoomMessage};
use crate::tab::TabId;
use crate::tree::PaneNode;
use vstd::prelude::*;

verus! {

/// Some message of `store` has the id `id`.
pub open spec fn in_store(store: Seq<RoomMessage>, id: u64) -> bool {
    exists|j: int| 0 <= j < store.len() && (#[trigger] store[j]).message_id == id
}

/// `m` is the first message of `store` with its id.
pub open spec fn first_in_store(store: Seq<RoomMessage>, m: RoomMessage) -> bool {
    exists|j: int|
        {
            &&& 0 <= j < store.len()
            &&& #[trigger] store[j] == m
            &&& forall|i: int| 0 <= i < j ==> (#[trigger] store[i]).message_id != m.message_id
        }
}

/// `ms` are the messages of the queue `ids` that `store` still has: all of
/// them, in the order of the queue, and as they were stored.
pub open spec fn are_those_held(
    ms: Seq<RoomMessage>,
    store: Seq<RoomMessage>,
    ids: Seq<u64>,
) -> bool {
    &&& ms.map_values(|m: RoomMessage| m.message_id) == ids.filter(|id: u64| in_store(store, id))
    &&& forall|k: int| 0 <= k < ms.len() ==> first_in_store(store, #[trigger] ms[k])
}

proof fn lemma_stored(store: Seq<RoomMessage>, id: u64)
    ensures
        in_store(store, id) <==> stored(store, id) is Some,
        stored(store, id) matches Some(m) ==> m.message_id == id && first_in_store(store, m),
    decreases store.len(),
{
    if store.len() > 0 {
        let rest = store.drop_first();
        lemma_stored(rest, id);
        if store[0].message_id == id {
            assert(store[0] == stored(store, id)->0);
        } else {
            if in_store(store, id) {
                let j = choose|j: int| 0 <= j < store.len() && (#[trigger] store[j]).message_id == id;
                assert(rest[j - 1].message_id == id);
            }
            if let Some(m) = stored(rest, id) {
                let j = choose|j: int|
                    {
                        &&& 0 <= j < rest.len()
                        &&& #[trigger] rest[j] == m
                        &&& forall|i: int|
                            0 <= i < j ==> (#[trigger] rest[i]).message_id != m.message_id
                    };
                assert(store[j + 1] == m);
                assert forall|i: int| 0 <= i < j + 1 implies (#[trigger] store[i]).message_id
                    != m.message_id by {
                    if i > 0 {
                        assert(rest[i - 1].message_id != m.message_id);
                    }
                }
            }
        }
    }
}

/// A queue is looked up whole: every message that is still stored comes out,
/// once for each time it is queued, in the order of the queue.
pub proof fn law_queue_is_looked_up_whole(store: Seq<RoomMessage>, ids: Seq<u64>)
    ensures
        are_those_held(resolved(store, ids), store, ids),
    decreases ids.len(),
{
    reveal(Seq::filter);
    let ms = resolved(store, ids);
    let got = ms.map_values(|m: RoomMessage| m.message_id);
    let want = ids.filter(|id: u64| in_store(store, id));
    if ids.len() > 0 {
        let rest = ids.drop_last();
        law_queue_is_looked_up_whole(store, rest);
        lemma_stored(store, ids.last());
        let before = resolved(store, rest).map_values(|m: RoomMessage| m.message_id);
        if stored(store, ids.last()) is Some {
            assert(got =~= before.push(ids.last()));
            assert forall|k: int| 0 <= k < ms.len() implies first_in_store(
                store,
                #[trigger] ms[k],
            ) by {
                if k < ms.len() - 1 {
                    assert(ms[k] == resolved(store, rest)[k]);
                }
            }
        } else {
            assert(got =~= before);
        }
    }
    assert(got =~= want);
}

/// `p` is the first entry of `panes` for the actor.
pub open spec fn sits_at(panes: Seq<SlugPane>, slug: Seq<char>, p: int) -> bool {
    &&& 0 <= p < panes.len()
    &&& panes[p].slug@ == slug
    &&& forall|q: int| 0 <= q < p ==> (#[trigger] panes[q]).slug@ != slug
}

/// What is held for an actor may be typed into `pane` now: it has no receiver,
/// it has been silent for five seconds, and nobody has typed there within the
/// last three seconds of a window that has the keyboard.
pub open spec fn may_type(a: ActorState, pane: u64, human: Map<u64, u64>, s: Surroundings) -> bool {
    &&& a.conn is None
    &&& a.last_activity matches Some(t) ==> s.now - t > 5_000_000_000
    &&& !(s.focused && s.active_tab == pane && human.contains_key(pane) && s.now - human[pane]
        < 3_000_000_000)
}

proof fn lemma_pane_of(panes: Seq<SlugPane>, slug: Seq<char>, p: int)
    requires
        sits_at(panes, slug, p),
    ensures
        pane_of(panes, slug) == Some(panes[p].pane),
    decreases panes.len(),
{
    if p > 0 {
        let rest = panes.drop_first();
        assert(panes[0].slug@ != slug);
        assert forall|q: int| 0 <= q < p - 1 implies (#[trigger] rest[q]).slug@ != slug by {
            assert(panes[q + 1].slug@ != slug);
        }
        lemma_pane_of(rest, slug, p - 1);
    }
}

proof fn lemma_pane_from(panes: Seq<SlugPane>, slug: Seq<char>) -> (p: int)
    requires
        pane_of(panes, slug) is Some,
    ensures
        sits_at(panes, slug, p),
        pane_of(panes, slug) == Some(panes[p].pane),
    decreases panes.len(),
{
    if panes[0].slug@ == slug {
        0
    } else {
        let rest = panes.drop_first();
        let q = lemma_pane_from(rest, slug);
        assert forall|k: int| 0 <= k < q + 1 implies (#[trigger] panes[k]).slug@ != slug by {
            if k > 0 {
                assert(rest[k - 1].slug@ != slug);
            }
        }
        q + 1
    }
}

proof fn lemma_some_held(store: Seq<RoomMessage>, ids: Seq<u64>)
    ensures
        resolved(store, ids).len() > 0 <==> exists|k: int|
            0 <= k < ids.len() && in_store(store, #[trigger] ids[k]),
    decreases ids.len(),
{
    if ids.len() > 0 {
        let rest = ids.drop_last();
        lemma_some_held(store, rest);
        lemma_stored(store, ids.last());
        if exists|k: int| 0 <= k < ids.len() && in_store(store, #[trigger] ids[k]) {
            let k = choose|k: int| 0 <= k < ids.len() && in_store(store, #[trigger] ids[k]);
            if k < rest.len() {
                assert(in_store(store, rest[k]));
            }
        }
        if resolved(store, ids).len() > 0 {
            if stored(store, ids.last()) is Some {
                assert(in_store(store, ids[ids.len() - 1]));
            } else {
                let k = choose|k: int| 0 <= k < rest.len() && in_store(store, #[trigger] rest[k]);
                assert(in_store(store, ids[k]));
            }
        }
    }
}

/// The floor is open to an actor that sits in a pane exactly when something that
/// is held for it is still stored and may be typed; and what is then typed is
/// held no more, while all else about the actor stays.
pub proof fn law_floor_opens(
    a: ActorState,
    panes: Seq<SlugPane>,
    slug: Seq<char>,
    p: int,
    store: Seq<RoomMessage>,
    human: Map<u64, u64>,
    s: Surroundings,
)
    requires
        sits_at(panes, slug, p),
    ensures
        floor_open(a, pane_of(panes, slug), store, human, s) <==> may_type(
            a,
            panes[p].pane,
            human,
            s,
        ) && exists|k: int| 0 <= k < a.pending.len() && in_store(store, #[trigger] a.pending[k]),
        typed_in(a).pending.len() == 0,
        typed_in(a).watch is None,
        typed_in(a).conn == a.conn,
        typed_in(a).log == a.log,
        typed_in(a).last_activity == a.last_activity,
{
    lemma_pane_of(panes, slug, p);
    lemma_some_held(store, a.pending);
}

/// Nothing is typed for an actor that sits in no pane.
pub proof fn law_no_pane_no_typing(
    a: ActorState,
    panes: Seq<SlugPane>,
    slug: Seq<char>,
    store: Seq<RoomMessage>,
    human: Map<u64, u64>,
    s: Surroundings,
)
    requires
        forall|q: int| 0 <= q < panes.len() ==> (#[trigger] panes[q]).slug@ != slug,
    ensures
        !floor_open(a, pane_of(panes, slug), store, human, s),
        !floor_waits(a, pane_of(panes, slug)),
{
    if pane_of(panes, slug) is Some {
        let p = lemma_pane_from(panes, slug);
        assert(panes[p].slug@ != slug);
    }
}

/// A message that waits for an actor without a receiver keeps the retry going
/// until it is typed, whether or not the floor is open to it.
pub proof fn law_waiting_is_retried(a: ActorState, panes: Seq<SlugPane>, slug: Seq<char>, p: int)
    requires
        sits_at(panes, slug, p),
    ensures
        floor_waits(a, pane_of(panes, slug)) <==> a.pending.len() > 0 && a.conn is None,
{
    lemma_pane_of(panes, slug, p);
}

/// `job` types what is held for the actor `a`, and all of it, into the pane
/// that the actor sits in; and it may be typed there now.
pub open spec fn serves(
    job: (u64, Seq<RoomMessage>),
    a: Actor,
    panes: Seq<SlugPane>,
    store: Seq<RoomMessage>,
    human: Map<u64, u64>,
    s: Surroundings,
) -> bool {
    &&& exists|p: int| #[trigger] sits_at(panes, a.slug@, p) && job.0 == panes[p].pane
    &&& job.1.len() > 0
    &&& are_those_held(job.1, store, a.pending@)
    &&& a.conn is None
    &&& a.last_activity matches Some(t) ==> s.now - t > 5_000_000_000
    &&& !(s.focused && s.active_tab == job.0 && human.contains_key(job.0) && s.now - human[job.0]
        < 3_000_000_000)
}

/// Everything that is held for an actor without a receiver is typed: where it
/// sits in a pane, is idle and is not disturbed, and any of its messages is
/// still stored, there is a job for its pane with all of them.
pub proof fn law_floor_types_all(
    actors: Seq<Actor>,
    panes: Seq<SlugPane>,
    store: Seq<RoomMessage>,
    human: Map<u64, u64>,
    s: Surroundings,
    i: int,
    p: int,
    k: int,
)
    requires
        0 <= i < actors.len(),
        sits_at(panes, actors[i].slug@, p),
        may_type(actors[i]@, panes[p].pane, human, s),
        0 <= k < actors[i].pending@.len(),
        in_store(store, actors[i].pending@[k]),
    ensures
        ({
            let jobs = jobs_for(actors, panes, store, human, s);
            exists|j: int|
                {
                    &&& 0 <= j < jobs.len()
                    &&& (#[trigger] jobs[j]).0 == panes[p].pane
                    &&& are_those_held(jobs[j].1, store, actors[i].pending@)
                    &&& exists|m: int|
                        0 <= m < jobs[j].1.len() && (#[trigger] jobs[j].1[m]).message_id
                            == actors[i].pending@[k]
                }
        }),
    decreases actors.len(),
{
    let jobs = jobs_for(actors, panes, store, human, s);
    let rest = actors.drop_last();
    let before = jobs_for(rest, panes, store, human, s);
    if i < rest.len() {
        law_floor_types_all(rest, panes, store, human, s, i, p, k);
        let j = choose|j: int|
            {
                &&& 0 <= j < before.len()
                &&& (#[trigger] before[j]).0 == panes[p].pane
                &&& are_those_held(before[j].1, store, rest[i].pending@)
                &&& exists|m: int|
                    0 <= m < before[j].1.len() && (#[trigger] before[j].1[m]).message_id
                        == rest[i].pending@[k]
            };
        assert(jobs[j] == before[j]);
    } else {
        let a = actors[i];
        let ms = resolved(store, a.pending@);
        assert(in_store(store, a@.pending[k]));
        law_floor_opens(a@, panes, a.slug@, p, store, human, s);
        lemma_pane_of(panes, a.slug@, p);
        law_queue_is_looked_up_whole(store, a.pending@);
        assert(jobs[before.len() as int] == (panes[p].pane, ms));
        lemma_filter_keeps(a.pending@, |id: u64| in_store(store, id), k);
        let ids = ms.map_values(|m: RoomMessage| m.message_id);
        let m = choose|m: int| 0 <= m < ids.len() && ids[m] == a.pending@[k];
        assert(ms[m].message_id == a.pending@[k]);
    }
}

proof fn lemma_filter_keeps(s: Seq<u64>, f: spec_fn(u64) -> bool, k: int)
    requires
        0 <= k < s.len(),
        f(s[k]),
    ensures
        s.filter(f).contains(s[k]),
    decreases s.len(),
{
    reveal(Seq::filter);
    let rest = s.drop_last();
    if k < rest.len() {
        lemma_filter_keeps(rest, f, k);
        let i = choose|i: int| 0 <= i < rest.filter(f).len() && rest.filter(f)[i] == s[k];
        assert(s.filter(f)[i] == s[k]);
    } else {
        assert(s.filter(f)[rest.filter(f).len() as int] == s[k]);
    }
}

/// Nothing else is typed: the jobs serve actors one each, in the order of the
/// room.
pub proof fn law_floor_types_nothing_else(
    actors: Seq<Actor>,
    panes: Seq<SlugPane>,
    store: Seq<RoomMessage>,
    human: Map<u64, u64>,
    s: Surroundings,
) -> (at: Seq<int>)
    ensures
        ({
            let jobs = jobs_for(actors, panes, store, human, s);
            &&& at.len() == jobs.len()
            &&& forall|j: int| 0 <= j < jobs.len() ==> 0 <= #[trigger] at[j] < actors.len()
            &&& forall|j: int, k: int| 0 <= j < k < jobs.len() ==> #[trigger] at[j] < #[trigger] at[k]
            &&& forall|j: int|
                0 <= j < jobs.len() ==> serves(
                    #[trigger] jobs[j],
                    actors[at[j]],
                    panes,
                    store,
                    human,
                    s,
                )
        }),
    decreases actors.len(),
{
    if actors.len() == 0 {
        Seq::empty()
    } else {
        let rest = actors.drop_last();
        let a = actors.last();
        let jobs = jobs_for(actors, panes, store, human, s);
        let before = jobs_for(rest, panes, store, human, s);
        let had = law_floor_types_nothing_else(rest, panes, store, human, s);
        assert forall|j: int| 0 <= j < before.len() implies serves(
            #[trigger] jobs[j],
            actors[had[j]],
            panes,
            store,
            human,
            s,
        ) by {
            assert(serves(before[j], rest[had[j]], panes, store, human, s));
            assert(0 <= had[j] < rest.len());
            assert(jobs[j] == before[j]);
        }
        if floor_open(a@, pane_of(panes, a.slug@), store, human, s) {
            let p = lemma_pane_from(panes, a.slug@);
            law_queue_is_looked_up_whole(store, a.pending@);
            assert(serves(jobs[before.len() as int], a, panes, store, human, s));
            had.push(actors.len() - 1)
        } else {
            had
        }
    }
}

/// How one message is quoted.
pub open spec fn quote(m: RoomMessage) -> Seq<char> {
    seq!['['] + m.from@ + seq![']', ' '] + m.text@
}

/// Where the quote of the `k`-th message starts: behind the heading and the
/// quotes before it, with five characters between one quote and the next.
pub open spec fn quote_at(ms: Seq<RoomMessage>, k: int) -> int
    decreases k,
{
    if k <= 0 {
        17
    } else {
        quote_at(ms, k - 1) + quote(ms[k - 1]).len() + 5
    }
}

/// `line` holds `text` from `at` on, its line breaks turned into spaces.
pub open spec fn reads_at(line: Seq<char>, at: int, text: Seq<char>) -> bool {
    &&& 0 <= at <= line.len() - text.len()
    &&& forall|i: int|
        0 <= i < text.len() ==> #[trigger] line[at + i] == (if text[i] == '\n' || text[i] == '\r' {
            ' '
        } else {
            text[i]
        })
}

proof fn lemma_joined(ms: Seq<RoomMessage>, k: int)
    requires
        0 <= k < ms.len(),
    ensures
        joined(ms).len() == quote_at(ms, ms.len() as int) - 5 - 17,
        joined(ms).subrange(quote_at(ms, k) - 17, quote_at(ms, k) - 17 + quote(ms[k]).len()) == quote(
            ms[k],
        ),
        17 <= quote_at(ms, k) <= joined(ms).len() + 17 - quote(ms[k]).len(),
        k > 0 ==> joined(ms).subrange(quote_at(ms, k) - 17 - 5, quote_at(ms, k) - 17) == seq![
            ' ',
            ' ',
            '·',
            ' ',
            ' ',
        ],
    decreases ms.len(),
{
    reveal_strlit("[");
    reveal_strlit("] ");
    reveal_strlit("  ·  ");
    let n = ms.len() as int;
    let rest = ms.drop_last();
    let part = "["@ + ms.last().from@ + "] "@ + ms.last().text@;
    assert(part =~= quote(ms.last()));
    lemma_quote_at(ms, rest, n - 1);
    if n == 1 {
        assert(quote_at(ms, 1) == quote_at(ms, 0) + quote(ms[0]).len() + 5);
        assert(joined(ms) =~= part);
        assert(joined(ms).subrange(0, quote(ms[0]).len() as int) =~= quote(ms[0]));
    } else {
        let head = joined(rest);
        lemma_joined(rest, n - 2);
        assert(quote_at(ms, n) == quote_at(ms, n - 1) + quote(ms[n - 1]).len() + 5);
        assert(quote_at(rest, n - 1) == quote_at(ms, n - 1));
        assert(joined(ms) == head + "  ·  "@ + part);
        if k < n - 1 {
            lemma_joined(rest, k);
            lemma_quote_at(ms, rest, k);
            let at = quote_at(ms, k) - 17;
            let len = quote(ms[k]).len();
            assert(joined(ms).subrange(at, at + len) =~= head.subrange(at, at + len));
            if k > 0 {
                lemma_quote_at_grows(ms, k);
                assert(joined(ms).subrange(at - 5, at) =~= head.subrange(at - 5, at));
            }
        } else {
            let at = quote_at(ms, k) - 17;
            assert(head.len() == at - 5);
            assert(joined(ms).subrange(at, at + part.len()) =~= part);
            assert(joined(ms).subrange(at - 5, at) =~= "  ·  "@);
            assert("  ·  "@ =~= seq![' ', ' ', '·', ' ', ' ']);
        }
    }
}

proof fn lemma_quote_at(a: Seq<RoomMessage>, b: Seq<RoomMessage>, k: int)
    requires
        0 <= k <= b.len() <= a.len(),
        forall|i: int| 0 <= i < k ==> #[trigger] a[i] == b[i],
    ensures
        quote_at(a, k) == quote_at(b, k),
    decreases k,
{
    if k > 0 {
        lemma_quote_at(a, b, k - 1);
        assert(a[k - 1] == b[k - 1]);
    }
}

proof fn lemma_quote_at_grows(ms: Seq<RoomMessage>, k: int)
    requires
        k > 0,
    ensures
        quote_at(ms, k) >= 22,
    decreases k,
{
    if k > 1 {
        lemma_quote_at_grows(ms, k - 1);
    } else {
        assert(quote_at(ms, 0) == 17);
    }
}

/// The line that is typed names the room, then quotes every message with its
/// sender, in order and with a dot between one and the next, and ends there.
pub proof fn law_line_quotes_all(ms: Seq<RoomMessage>, k: int)
    requires
        0 <= k < ms.len(),
    ensures
        reads_at(floor_line(ms), 0, "[terminite room] "@),
        reads_at(floor_line(ms), quote_at(ms, k), quote(ms[k])),
        k > 0 ==> reads_at(floor_line(ms), quote_at(ms, k) - 5, seq![' ', ' ', '·', ' ', ' ']),
        floor_line(ms).len() == quote_at(ms, ms.len() - 1) + quote(ms.last()).len(),
{
    reveal_strlit("[terminite room] ");
    lemma_joined(ms, k);
    let raw = "[terminite room] "@ + joined(ms);
    let line = floor_line(ms);
    let at = quote_at(ms, k);
    let q = quote(ms[k]);
    let sep = seq![' ', ' ', '·', ' ', ' '];
    assert(line.len() == raw.len());
    assert forall|i: int| 0 <= i < q.len() implies #[trigger] line[at + i] == (if q[i] == '\n'
        || q[i] == '\r' {
        ' '
    } else {
        q[i]
    }) by {
        assert(joined(ms).subrange(at - 17, at - 17 + q.len())[i] == joined(ms)[at - 17 + i]);
        assert(raw[at + i] == q[i]);
    }
    if k > 0 {
        lemma_quote_at_grows(ms, k);
        assert forall|i: int| 0 <= i < 5 implies #[trigger] line[at - 5 + i] == sep[i] by {
            assert(joined(ms).subrange(at - 22, at - 17)[i] == joined(ms)[at - 22 + i]);
            assert(raw[at - 5 + i] == sep[i]);
        }
    }
    let n = ms.len() as int;
    assert(quote_at(ms, n) == quote_at(ms, n - 1) + quote(ms[n - 1]).len() + 5);
}

/// Every job whose pane still has its tab becomes one line in that pane, and
/// leaves one Enter to be sent there 120 milliseconds later, for all that the
/// line holds.
pub proof fn law_every_job_is_typed(
    jobs: Seq<(u64, Seq<RoomMessage>)>,
    t: PaneNode,
    now: u64,
    j: int,
)
    requires
        0 <= j < jobs.len(),
        t.has_tab(TabId(jobs[j].0)),
        now + 120_000_000 <= u64::MAX,
    ensures
        ({
            let lines = lines_for(jobs, t);
            let enters = submits_for(jobs, t, now);
            exists|i: int|
                {
                    &&& 0 <= i < lines.len()
                    &&& (#[trigger] lines[i]).0 == jobs[j].0
                    &&& lines[i].1 == floor_line(jobs[j].1)
                    &&& enters.len() == lines.len()
                    &&& enters[i].pane == jobs[j].0
                    &&& enters[i].deadline == now + 120_000_000
                    &&& enters[i].typed_chars == lines[i].1.len()
                    &&& enters[i].msg_ids.len() == jobs[j].1.len()
                    &&& forall|m: int|
                        0 <= m < jobs[j].1.len() ==> #[trigger] enters[i].msg_ids[m]
                            == jobs[j].1[m].message_id
                }
        }),
    decreases jobs.len(),
{
    let lines = lines_for(jobs, t);
    let enters = submits_for(jobs, t, now);
    let rest = jobs.drop_last();
    lemma_as_many(rest, t, now);
    lemma_as_many(jobs, t, now);
    if j < rest.len() {
        law_every_job_is_typed(rest, t, now, j);
        let ls = lines_for(rest, t);
        let es = submits_for(rest, t, now);
        let i = choose|i: int|
            {
                &&& 0 <= i < ls.len()
                &&& (#[trigger] ls[i]).0 == rest[j].0
                &&& ls[i].1 == floor_line(rest[j].1)
                &&& es.len() == ls.len()
                &&& es[i].pane == rest[j].0
                &&& es[i].deadline == now + 120_000_000
                &&& es[i].typed_chars == ls[i].1.len()
                &&& es[i].msg_ids.len() == rest[j].1.len()
                &&& forall|m: int|
                    0 <= m < rest[j].1.len() ==> #[trigger] es[i].msg_ids[m]
                        == rest[j].1[m].message_id
            };
        assert(lines[i] == ls[i]);
        assert(enters[i] == es[i]);
    } else {
        let i = lines_for(rest, t).len() as int;
        assert(lines[i].0 == jobs[j].0);
    }
}

proof fn lemma_as_many(jobs: Seq<(u64, Seq<RoomMessage>)>, t: PaneNode, now: u64)
    ensures
        lines_for(jobs, t).len() == submits_for(jobs, t, now).len() <= jobs.len(),
    decreases jobs.len(),
{
    if jobs.len() > 0 {
        lemma_as_many(jobs.drop_last(), t, now);
    }
}

/// Every line that is typed is that of a job, into a pane that still has its
/// tab; no more lines than jobs are typed.
pub proof fn law_only_jobs_are_typed(jobs: Seq<(u64, Seq<RoomMessage>)>, t: PaneNode, i: int)
    requires
        0 <= i < lines_for(jobs, t).len(),
    ensures
        t.has_tab(TabId(lines_for(jobs, t)[i].0)),
        lines_for(jobs, t).len() <= jobs.len(),
        exists|j: int|
            0 <= j < jobs.len() && (#[trigger] jobs[j]).0 == lines_for(jobs, t)[i].0 && floor_line(
                jobs[j].1,
            ) == lines_for(jobs, t)[i].1,
    decreases jobs.len(),
{
    let rest = jobs.drop_last();
    lemma_as_many(jobs, t, 0);
    if i < lines_for(rest, t).len() {
        law_only_jobs_are_typed(rest, t, i);
        let j = choose|j: int|
            0 <= j < rest.len() && (#[trigger] rest[j]).0 == lines_for(rest, t)[i].0 && floor_line(
                rest[j].1,
            ) == lines_for(rest, t)[i].1;
        assert(jobs[j] == rest[j]);
    } else {
        assert(jobs[jobs.len() - 1].0 == lines_for(jobs, t)[i].0);
    }
}

/// Enters that are due are sent, each once and in order, and the others wait.
pub proof fn law_due_enters_are_sent(submits: Seq<FloorSubmit>, now: u64)
    ensures
        Floor::due(submits, now) == submits.filter(
            |s: FloorSubmit| s.deadline <= now,
        ).map_values(|s: FloorSubmit| s.pane),
        Floor::waiting(submits, now) == submits.filter(|s: FloorSubmit| s.deadline > now),
    decreases submits.len(),
{
    reveal(Seq::filter);
    let f = |s: FloorSubmit| s.deadline <= now;
    let p = |s: FloorSubmit| s.pane;
    if submits.len() > 0 {
        let rest = submits.drop_last();
        law_due_enters_are_sent(rest, now);
        if submits.last().deadline <= now {
            assert(rest.filter(f).push(submits.last()).map_values(p) =~= rest.filter(f).map_values(
                p,
            ).push(submits.last().pane));
        }
    }
    assert(Floor::due(submits, now) =~= submits.filter(f).map_values(p));
    assert(Floor::waiting(submits, now) =~= submits.filter(|s: FloorSubmit| s.deadline > now));
}

} // verus!

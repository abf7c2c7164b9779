//! What becomes of a message that is sent to somebody: it is kept until it has
//! been consumed, it goes to the addressee's receiver, and to nobody else.

use crate::floor_laws::{are_those_held, law_queue_is_looked_up_whole};
use crate::room::{
    acknowledged, after_pushes, all_but, all_stall_pushes, answered, bumped, catch_up, caught_up,
    disconnected, emitted, pruned, push_to, pushes, resolved, stall_checked, stall_pushes, stalled,
    woken, Actor, ActorState, Push, Recorded, Room, RoomMessage,
};
use crate::room_laws::{law_push_keeps_pending, lemma_pruned_again};
use vstd::prelude::*;

verus! {

/// A message to somebody is the newest that waits for them, behind what waited
/// already; who sent it is awake; and nothing changes for anybody else.
pub proof fn law_message_waits_for_its_addressee(
    before: Room,
    after: Room,
    m: Recorded,
    id: u64,
    on: bool,
    now_ms: u64,
    now: u64,
    p: Option<Push>,
    other: Seq<char>,
)
    requires
        before.wf(),
        emitted(before, after, m, id, on, now_ms, now, p),
        m.to is Some,
    ensures
        ({
            let to = m.to->0@;
            let a = before.actor(to);
            let b = after.actor(to);
            &&& b.pending.len() > 0 && b.pending.last() == id
            &&& a.pending.len() < 64 ==> b.pending == a.pending.push(id)
            &&& a.pending.len() == 64 ==> b.pending == a.pending.drop_first().push(id)
            &&& b.conn == a.conn
            &&& to != m.actor@ ==> b.last_activity == a.last_activity && b.watch == a.watch
            &&& after.actor(m.actor@).last_activity == Some(now)
            &&& after.actor(m.actor@).watch is None
            &&& to != m.actor@ ==> after.actor(m.actor@).pending == before.actor(m.actor@).pending
            &&& other != to && other != m.actor@ ==> after.actor(other) == before.actor(other)
        }),
{
    let to = m.to->0@;
    before.lemma_bounded(to);
    let a = before.actor(to);
    if a.pending.len() == 64 {
        assert(a.pending.push(id).skip(1) =~= a.pending.drop_first().push(id));
    }
    if to != m.actor@ {
        assert(crate::text::opt_text(m.to) != Some(m.actor@));
    }
    assert(after.actor(other) == after.actor(other));
}

/// Where the addressee has a receiver and has not been pushed to too often, the
/// message goes out to that receiver, as it was written and under the name of
/// who wrote it; without a receiver, or with delivery off, nothing goes out.
pub proof fn law_message_goes_to_the_receiver(
    before: Room,
    after: Room,
    m: Recorded,
    id: u64,
    on: bool,
    now_ms: u64,
    now: u64,
    p: Option<Push>,
)
    requires
        before.wf(),
        emitted(before, after, m, id, on, now_ms, now, p),
    ensures
        m.to is None ==> p is None,
        m.to matches Some(to) ==> {
            let a = before.actor(to@);
            &&& !on || a.conn is None ==> p is None
            &&& on && a.conn is Some && a.log.len() < 8 ==> (p matches Some(x) && {
                &&& x.target@ == to@
                &&& Some(x.conn) == a.conn
                &&& x.message.message_id == id
                &&& x.message.from@ == m.actor@
                &&& x.message.text@ == m.text@
            })
        },
{
    if let Some(to) = m.to {
        lemma_pruned_again(before.actor(to@).log, now_ms);
    }
}

/// A message to all is nobody's in particular: it waits for no one.
pub proof fn law_broadcast_waits_for_nobody(
    before: Room,
    after: Room,
    m: Recorded,
    id: u64,
    on: bool,
    now_ms: u64,
    now: u64,
    p: Option<Push>,
    who: Seq<char>,
)
    requires
        emitted(before, after, m, id, on, now_ms, now, p),
        m.to is None,
    ensures
        p is None,
        after.actor(who).pending == before.actor(who).pending,
        after.actor(who).conn == before.actor(who).conn,
        who != m.actor@ ==> after.actor(who) == before.actor(who),
{
    assert(crate::text::opt_text(m.to) != Some(who));
}

/// Every push of the last ten seconds counts against the rate, and none that is
/// older, where they are listed in order.
pub proof fn law_rate_forgets_the_old(log: Seq<u64>, now: u64, i: int)
    requires
        forall|a: int, b: int| 0 <= a <= b < log.len() ==> log[a] <= log[b],
        0 <= i < log.len(),
    ensures
        now - log[i] < 10_000 ==> pruned(log, now).contains(log[i]),
        forall|k: int|
            0 <= k < pruned(log, now).len() ==> now - #[trigger] pruned(log, now)[k] < 10_000,
    decreases log.len(),
{
    if now - log[0] >= 10_000 {
        let rest = log.drop_first();
        assert forall|a: int, b: int| 0 <= a <= b < rest.len() implies rest[a] <= rest[b] by {
            assert(log[a + 1] <= log[b + 1]);
        }
        if i > 0 {
            law_rate_forgets_the_old(rest, now, i - 1);
        } else if rest.len() > 0 {
            law_rate_forgets_the_old(rest, now, 0);
        } else {
            assert(pruned(rest, now) == rest);
        }
    } else {
        assert(pruned(log, now) == log);
        assert(log[i] == log[i]);
        assert forall|k: int| 0 <= k < log.len() implies now - #[trigger] log[k] < 10_000 by {
            assert(log[0] <= log[k]);
        }
    }
}

proof fn lemma_room_left(a: ActorState, now_ms: u64, n: nat)
    requires
        pruned(a.log, now_ms).len() <= 8,
    ensures
        ({
            let l = pruned(a.log, now_ms).len();
            pruned(after_pushes(a, true, now_ms, n).log, now_ms).len() == if l + n < 8 {
                l + n
            } else {
                8
            }
        }),
    decreases n,
{
    if n > 0 {
        lemma_room_left(a, now_ms, (n - 1) as nat);
        let b = after_pushes(a, true, now_ms, (n - 1) as nat);
        lemma_pruned_again(b.log, now_ms);
    }
}

pub proof fn lemma_keeps_conn(a: ActorState, on: bool, now_ms: u64, n: nat)
    ensures
        after_pushes(a, on, now_ms, n).conn == a.conn,
    decreases n,
{
    if n > 0 {
        lemma_keeps_conn(a, on, now_ms, (n - 1) as nat);
    }
}

proof fn lemma_pushes_first(
    a: ActorState,
    slug: Seq<char>,
    now_ms: u64,
    msgs: Seq<RoomMessage>,
    conn: u64,
)
    requires
        a.conn == Some(conn),
        pruned(a.log, now_ms).len() == 0,
    ensures
        ({
            let out = pushes(a, slug, true, now_ms, msgs);
            &&& out.len() == if msgs.len() < 8 {
                msgs.len()
            } else {
                8
            }
            &&& forall|i: int| 0 <= i < out.len() ==> #[trigger] out[i] == (slug, conn, msgs[i])
        }),
    decreases msgs.len(),
{
    if msgs.len() > 0 {
        let n = (msgs.len() - 1) as nat;
        lemma_pushes_first(a, slug, now_ms, msgs.drop_last(), conn);
        lemma_room_left(a, now_ms, n);
        lemma_keeps_conn(a, true, now_ms, n);
        let rest = pushes(a, slug, true, now_ms, msgs.drop_last());
        let out = pushes(a, slug, true, now_ms, msgs);
        assert forall|i: int| 0 <= i < out.len() implies #[trigger] out[i] == (
            slug,
            conn,
            msgs[i],
        ) by {
            if i < rest.len() {
                assert(rest[i] == (slug, conn, msgs.drop_last()[i]));
            }
        }
    }
}

/// Pushes to the receiver `conn` of `slug` with the messages `ms`, the oldest
/// first, as many as the rate allows at once.
pub open spec fn oldest_go_out(
    out: Seq<(Seq<char>, u64, RoomMessage)>,
    slug: Seq<char>,
    conn: u64,
    ms: Seq<RoomMessage>,
) -> bool {
    &&& ms.len() <= 8 ==> out.len() == ms.len()
    &&& ms.len() > 8 ==> out.len() == 8
    &&& forall|i: int| 0 <= i < out.len() ==> #[trigger] out[i] == (slug, conn, ms[i])
}

/// A receiver that comes gets what was sent while it was away, from the store
/// and the oldest first; what it does not get at once goes on waiting.
pub proof fn law_catch_up_delivers(
    a: ActorState,
    slug: Seq<char>,
    store: Seq<RoomMessage>,
    now_ms: u64,
    conn: u64,
) -> (ms: Seq<RoomMessage>)
    requires
        a.conn == Some(conn),
        forall|i: int| 0 <= i < a.log.len() ==> now_ms - #[trigger] a.log[i] >= 10_000,
    ensures
        are_those_held(ms, store, a.pending),
        oldest_go_out(catch_up(a, slug, store, true, now_ms), slug, conn, ms),
        caught_up(a, store, true, now_ms).pending == a.pending,
        caught_up(a, store, true, now_ms).conn == a.conn,
{
    let ms = resolved(store, a.pending);
    law_queue_is_looked_up_whole(store, a.pending);
    lemma_all_old(a.log, now_ms);
    lemma_pushes_first(a, slug, now_ms, ms, conn);
    law_push_keeps_pending(a, true, now_ms, ms.len(), 0, false, 0);
    lemma_keeps_conn(a, true, now_ms, ms.len());
    ms
}

proof fn lemma_all_old(log: Seq<u64>, now: u64)
    requires
        forall|i: int| 0 <= i < log.len() ==> now - #[trigger] log[i] >= 10_000,
    ensures
        pruned(log, now).len() == 0,
    decreases log.len(),
{
    if log.len() > 0 {
        assert(now - log[0] >= 10_000);
        let rest = log.drop_first();
        assert forall|i: int| 0 <= i < rest.len() implies now - #[trigger] rest[i] >= 10_000 by {
            assert(now - log[i + 1] >= 10_000);
        }
        lemma_all_old(rest, now);
    }
}

/// Without a receiver nothing goes out.
pub proof fn law_no_receiver_no_push(
    a: ActorState,
    slug: Seq<char>,
    store: Seq<RoomMessage>,
    on: bool,
    now_ms: u64,
)
    requires
        a.conn is None,
    ensures
        push_to(a, on, now_ms) is None,
        catch_up(a, slug, store, on, now_ms).len() == 0,
{
    lemma_nothing_out(a, slug, on, now_ms, resolved(store, a.pending));
}

proof fn lemma_nothing_out(
    a: ActorState,
    slug: Seq<char>,
    on: bool,
    now_ms: u64,
    msgs: Seq<RoomMessage>,
)
    requires
        a.conn is None,
    ensures
        pushes(a, slug, on, now_ms, msgs).len() == 0,
    decreases msgs.len(),
{
    if msgs.len() > 0 {
        lemma_nothing_out(a, slug, on, now_ms, msgs.drop_last());
        lemma_keeps_conn(a, on, now_ms, (msgs.len() - 1) as nat);
    }
}

/// A receiver that took a push has thirty seconds to act; a push that was not
/// taken drops the receiver, and it alone.
pub proof fn law_push_is_followed_up(a: ActorState, conn: u64, other: u64, now: u64)
    requires
        now + 30_000_000_000 <= u64::MAX,
        a.conn == Some(conn),
        other != conn,
    ensures
        answered(a, conn, true, now).watch is Some,
        answered(a, conn, true, now).watch->0.deadline == now + 30_000_000_000,
        a.watch is None ==> answered(a, conn, true, now).watch->0.retries == 0,
        a.watch matches Some(w) ==> answered(a, conn, true, now).watch->0.retries == w.retries,
        answered(a, conn, true, now).conn == a.conn,
        answered(a, conn, false, now).conn is None,
        answered(a, conn, false, now).watch == a.watch,
        answered(a, other, false, now) == a,
{
}

/// An actor that lets its deadline pass in silence is delivered to again, all
/// that waits for it and the oldest first, and has thirty seconds more; this
/// happens three times. Before the deadline, and once it has acted, nothing is
/// repeated.
pub proof fn law_silence_is_answered(
    a: ActorState,
    slug: Seq<char>,
    store: Seq<RoomMessage>,
    now_ms: u64,
    now: u64,
    conn: u64,
) -> (ms: Seq<RoomMessage>)
    requires
        now + 30_000_000_000 <= u64::MAX,
        a.conn == Some(conn),
        forall|i: int| 0 <= i < a.log.len() ==> now_ms - #[trigger] a.log[i] >= 10_000,
    ensures
        are_those_held(ms, store, a.pending),
        a.watch matches Some(w) ==> {
            let b = stall_checked(a, store, true, now_ms, now);
            let out = stall_pushes(a, slug, store, true, now_ms, now);
            &&& now < w.deadline ==> b == a && out.len() == 0
            &&& now >= w.deadline && w.retries < 3 && a.pending.len() > 0 ==> {
                &&& oldest_go_out(out, slug, conn, ms)
                &&& b.watch is Some
                &&& b.watch->0.deadline == now + 30_000_000_000
                &&& b.watch->0.retries == w.retries + 1
                &&& b.pending == a.pending
            }
            &&& now >= w.deadline && (w.retries >= 3 || a.pending.len() == 0) ==> {
                &&& out.len() == 0
                &&& b.watch is None
                &&& b.pending == a.pending
            }
        },
        a.watch is None ==> stall_checked(a, store, true, now_ms, now) == a && stall_pushes(
            a,
            slug,
            store,
            true,
            now_ms,
            now,
        ).len() == 0,
        woken(a, now).watch is None,
        woken(a, now).last_activity == Some(now),
        woken(a, now).pending == a.pending,
        woken(a, now).conn == a.conn,
{
    law_queue_is_looked_up_whole(store, a.pending);
    let ms = resolved(store, a.pending);
    if stalled(a, now) && a.watch->0.retries < 3 && a.pending.len() > 0 {
        let b = bumped(a, now);
        lemma_all_old(b.log, now_ms);
        lemma_pushes_first(b, slug, now_ms, ms, conn);
        law_push_keeps_pending(b, true, now_ms, ms.len(), 0, false, 0);
        lemma_watch_kept(b, true, now_ms, ms.len());
    }
    ms
}

proof fn lemma_watch_kept(a: ActorState, on: bool, now_ms: u64, n: nat)
    ensures
        after_pushes(a, on, now_ms, n).watch == a.watch,
    decreases n,
{
    if n > 0 {
        lemma_watch_kept(a, on, now_ms, (n - 1) as nat);
    }
}

/// A look at all stall watches puts out what each of them calls for, and
/// nothing else.
pub proof fn law_every_stall_is_answered(
    actors: Seq<Actor>,
    store: Seq<RoomMessage>,
    on: bool,
    now_ms: u64,
    now: u64,
    i: int,
    k: int,
)
    requires
        0 <= i < actors.len(),
        0 <= k < stall_pushes(actors[i]@, actors[i].slug@, store, on, now_ms, now).len(),
    ensures
        all_stall_pushes(actors, store, on, now_ms, now).contains(
            stall_pushes(actors[i]@, actors[i].slug@, store, on, now_ms, now)[k],
        ),
    decreases actors.len(),
{
    let rest = actors.drop_last();
    let all = all_stall_pushes(actors, store, on, now_ms, now);
    let head = all_stall_pushes(rest, store, on, now_ms, now);
    let part = stall_pushes(actors[i]@, actors[i].slug@, store, on, now_ms, now);
    if i < rest.len() {
        law_every_stall_is_answered(rest, store, on, now_ms, now, i, k);
        let j = choose|j: int| 0 <= j < head.len() && head[j] == part[k];
        assert(all[j] == part[k]);
    } else {
        assert(all[head.len() + k] == part[k]);
    }
}

/// What is put out when the stall watches are looked at is for an actor whose
/// deadline has passed, and goes to that actor's receiver.
pub proof fn law_only_stalls_are_answered(
    actors: Seq<Actor>,
    store: Seq<RoomMessage>,
    on: bool,
    now_ms: u64,
    now: u64,
    j: int,
) -> (i: int)
    requires
        0 <= j < all_stall_pushes(actors, store, on, now_ms, now).len(),
    ensures
        on,
        0 <= i < actors.len(),
        ({
            let p = all_stall_pushes(actors, store, on, now_ms, now)[j];
            &&& p.0 == actors[i].slug@
            &&& Some(p.1) == actors[i].conn
            &&& actors[i].pending@.contains(p.2.message_id)
            &&& actors[i].watch matches Some(w) && w.deadline <= now && w.retries < 3
        }),
    decreases actors.len(),
{
    let rest = actors.drop_last();
    let head = all_stall_pushes(rest, store, on, now_ms, now);
    if j < head.len() {
        law_only_stalls_are_answered(rest, store, on, now_ms, now, j)
    } else {
        let a = actors.last();
        let b = bumped(a@, now);
        if !on {
            crate::room_laws::law_delivery_off(a@, a.slug@, now_ms, now, store);
        }
        lemma_push_from(b, a.slug@, on, now_ms, resolved(store, b.pending), j - head.len());
        law_queue_is_looked_up_whole(store, b.pending);
        let out = pushes(b, a.slug@, on, now_ms, resolved(store, b.pending));
        let m = out[j - head.len()].2;
        lemma_from_queue(store, b.pending, m);
        actors.len() - 1
    }
}

proof fn lemma_push_from(
    a: ActorState,
    slug: Seq<char>,
    on: bool,
    now_ms: u64,
    msgs: Seq<RoomMessage>,
    k: int,
)
    requires
        0 <= k < pushes(a, slug, on, now_ms, msgs).len(),
    ensures
        pushes(a, slug, on, now_ms, msgs)[k].0 == slug,
        Some(pushes(a, slug, on, now_ms, msgs)[k].1) == a.conn,
        msgs.contains(pushes(a, slug, on, now_ms, msgs)[k].2),
    decreases msgs.len(),
{
    let rest = msgs.drop_last();
    let before = pushes(a, slug, on, now_ms, rest);
    let n = (msgs.len() - 1) as nat;
    lemma_keeps_conn(a, on, now_ms, n);
    if k < before.len() {
        lemma_push_from(a, slug, on, now_ms, rest, k);
        let i = choose|i: int| 0 <= i < rest.len() && rest[i] == before[k].2;
        assert(msgs[i] == before[k].2);
    } else {
        assert(msgs[msgs.len() - 1] == msgs.last());
    }
}

proof fn lemma_from_queue(store: Seq<RoomMessage>, ids: Seq<u64>, m: RoomMessage)
    requires
        resolved(store, ids).contains(m),
    ensures
        ids.contains(m.message_id),
    decreases ids.len(),
{
    let ms = resolved(store, ids);
    let i = choose|i: int| 0 <= i < ms.len() && ms[i] == m;
    let rest = ids.drop_last();
    let before = resolved(store, rest);
    if i < before.len() {
        assert(before[i] == m);
        lemma_from_queue(store, rest, m);
        let k = choose|k: int| 0 <= k < rest.len() && rest[k] == m.message_id;
        assert(ids[k] == m.message_id);
    } else {
        lemma_stored_has_id(store, ids.last());
        assert(ids[ids.len() - 1] == m.message_id);
    }
}

proof fn lemma_stored_has_id(store: Seq<RoomMessage>, id: u64)
    ensures
        crate::room::stored(store, id) matches Some(m) ==> m.message_id == id,
    decreases store.len(),
{
    if store.len() > 0 {
        lemma_stored_has_id(store.drop_first(), id);
    }
}

/// A message that has been consumed waits no more, and everything else does.
pub proof fn law_consumed_is_gone(a: ActorState, id: u64, other: u64)
    ensures
        !acknowledged(a, id).pending.contains(id),
        other != id && a.pending.contains(other) ==> acknowledged(a, id).pending.contains(other),
        acknowledged(a, id).conn == a.conn,
        acknowledged(a, id).watch == a.watch,
        acknowledged(a, id).last_activity == a.last_activity,
{
    let left = acknowledged(a, id).pending;
    let f = all_but(id);
    if left.contains(id) {
        let k = choose|k: int| 0 <= k < left.len() && left[k] == id;
        a.pending.lemma_filter_pred(f, k);
    }
    if other != id && a.pending.contains(other) {
        let k = choose|k: int| 0 <= k < a.pending.len() && a.pending[k] == other;
        lemma_kept(a.pending, f, k);
    }
}

proof fn lemma_kept(s: Seq<u64>, f: spec_fn(u64) -> bool, k: int)
    requires
        0 <= k < s.len(),
        f(s[k]),
    ensures
        s.filter(f).contains(s[k]),
    decreases s.len(),
{
    reveal(Seq::filter);
    let rest = s.drop_last();
    if k < rest.len() {
        lemma_kept(rest, f, k);
        let i = choose|i: int| 0 <= i < rest.filter(f).len() && rest.filter(f)[i] == s[k];
        assert(s.filter(f)[i] == s[k]);
    } else {
        assert(s.filter(f)[rest.filter(f).len() as int] == s[k]);
    }
}

/// What waits before a consumed message and behind it keeps its order.
pub proof fn law_consuming_keeps_the_order(a: ActorState, id: u64, head: Seq<u64>, tail: Seq<u64>)
    requires
        a.pending == head.push(id) + tail,
        !head.contains(id),
        !tail.contains(id),
    ensures
        acknowledged(a, id).pending == head + tail,
    decreases tail.len(),
{
    reveal(Seq::filter);
    let f = all_but(id);
    if tail.len() == 0 {
        assert(a.pending =~= head.push(id));
        assert(a.pending.drop_last() =~= head);
        lemma_none_goes(head, id);
        assert(head + tail =~= head);
    } else {
        let rest = ActorState { pending: head.push(id) + tail.drop_last(), ..a };
        assert(a.pending.drop_last() =~= rest.pending);
        assert(tail[tail.len() - 1] == tail.last());
        assert forall|x: u64| tail.drop_last().contains(x) implies tail.contains(x) by {
            let k = choose|k: int| 0 <= k < tail.drop_last().len() && tail.drop_last()[k] == x;
            assert(tail[k] == x);
        }
        law_consuming_keeps_the_order(rest, id, head, tail.drop_last());
        assert((head + tail.drop_last()).push(tail.last()) =~= head + tail);
    }
}

proof fn lemma_none_goes(s: Seq<u64>, id: u64)
    requires
        !s.contains(id),
    ensures
        s.filter(all_but(id)) == s,
    decreases s.len(),
{
    reveal(Seq::filter);
    if s.len() > 0 {
        let rest = s.drop_last();
        assert(s[s.len() - 1] == s.last());
        assert forall|x: u64| rest.contains(x) implies s.contains(x) by {
            let k = choose|k: int| 0 <= k < rest.len() && rest[k] == x;
            assert(s[k] == x);
        }
        lemma_none_goes(rest, id);
        assert(rest.push(s.last()) =~= s);
    }
}

/// A connection that is gone is nobody's receiver any more; every other one
/// stays, and so does everything that waits.
pub proof fn law_gone_connection(a: ActorState, conn: u64)
    ensures
        disconnected(a, conn).conn != Some(conn),
        a.conn != Some(conn) ==> disconnected(a, conn) == a,
        disconnected(a, conn).pending == a.pending,
        disconnected(a, conn).watch == a.watch,
        disconnected(a, conn).last_activity == a.last_activity,
{
}

/// Pushes to one receiver are handed out in their order, none is passed over
/// while the receiver is there.
pub proof fn law_pushes_keep_their_order(room: Room, ps: Seq<Push>)
    ensures
        ({
            let n = room.first_due(ps);
            &&& 0 <= n <= ps.len()
            &&& n < ps.len() ==> room.actor(ps[n].target@).conn == Some(ps[n].conn)
            &&& forall|i: int|
                0 <= i < n ==> room.actor((#[trigger] ps[i]).target@).conn != Some(ps[i].conn)
        }),
    decreases ps.len(),
{
    if ps.len() > 0 && !room.due(ps[0]) {
        let rest = ps.drop_first();
        law_pushes_keep_their_order(room, rest);
        let n = room.first_due(ps);
        assert forall|i: int| 0 <= i < n implies room.actor((#[trigger] ps[i]).target@).conn != Some(
            ps[i].conn,
        ) by {
            if i > 0 {
                assert(rest[i - 1] == ps[i]);
            }
        }
    }
}

} // verus!

//! What the room promises: a bounded rate, nothing lost before it is consumed,
//! nothing repeated after it, and an end to every re-delivery.

use crate::room::{
    after_pushes, all_stall_pushes, answered, bumped, catch_up, caught_up, given_up, pruned, push_to,
    pushed, pushes, queued, resolved, stall_checked, stall_pushes, stalled, stored, unknown_actor,
    woken, Actor, ActorState, RoomMessage, DELIVERY_MAX, DELIVERY_WINDOW_MS, MAX_REDELIVERY,
    PENDING_CAP,
};
use vstd::prelude::*;

verus! {

/// The times among `times` at which the rate guard let a push through, and the
/// log that it then keeps.
pub open spec fn let_through(times: Seq<u64>) -> (Seq<u64>, Seq<u64>)
    decreases times.len(),
{
    if times.len() == 0 {
        (Seq::empty(), Seq::empty())
    } else {
        let (through, log) = let_through(times.drop_last());
        let kept = pruned(log, times.last());
        if kept.len() >= DELIVERY_MAX {
            (through, kept)
        } else {
            (through.push(times.last()), kept.push(times.last()))
        }
    }
}

/// An attempt to push to an actor: whether delivery was on, which receiver there
/// was, and when it was made.
pub struct Attempt {
    pub on: bool,
    pub conn: Option<u64>,
    pub at: u64,
}

/// The times of the attempts that were made with delivery on.
pub open spec fn guarded(tries: Seq<Attempt>) -> Seq<u64>
    decreases tries.len(),
{
    if tries.len() == 0 {
        Seq::empty()
    } else if tries.last().on {
        guarded(tries.drop_last()).push(tries.last().at)
    } else {
        guarded(tries.drop_last())
    }
}

/// An actor with the log that attempts leave behind, at the last one's
/// receiver.
pub open spec fn tried(tries: Seq<Attempt>) -> ActorState
    decreases tries.len(),
{
    if tries.len() == 0 {
        unknown_actor()
    } else {
        let t = tries.last();
        pushed(ActorState { conn: t.conn, ..tried(tries.drop_last()) }, t.on, t.at)
    }
}

/// The times at which attempts put a push out.
pub open spec fn out_at(tries: Seq<Attempt>) -> Seq<u64>
    decreases tries.len(),
{
    if tries.len() == 0 {
        Seq::empty()
    } else {
        let t = tries.last();
        let before = ActorState { conn: t.conn, ..tried(tries.drop_last()) };
        if push_to(before, t.on, t.at) is Some {
            out_at(tries.drop_last()).push(t.at)
        } else {
            out_at(tries.drop_last())
        }
    }
}

/// Which of the pushes that the guard let through went out.
spec fn out_index(tries: Seq<Attempt>) -> Seq<int>
    decreases tries.len(),
{
    if tries.len() == 0 {
        Seq::empty()
    } else {
        let t = tries.last();
        let before = ActorState { conn: t.conn, ..tried(tries.drop_last()) };
        if push_to(before, t.on, t.at) is Some {
            out_index(tries.drop_last()).push(
                let_through(guarded(tries.drop_last())).0.len() as int,
            )
        } else {
            out_index(tries.drop_last())
        }
    }
}

/// Only pushes change what the guard counts: acting, a new message and a
/// receiver's answer leave it alone.
pub proof fn law_guard_is_the_log(a: ActorState, conn: u64, sent: bool, id: u64, now: u64)
    ensures
        woken(a, now).log == a.log,
        queued(a, id).log == a.log,
        answered(a, conn, sent, now).log == a.log,
{
}

proof fn lemma_tried(tries: Seq<Attempt>)
    ensures
        tried(tries).log == let_through(guarded(tries)).1,
        out_index(tries).len() == out_at(tries).len(),
        forall|k: int|
            0 <= k < out_at(tries).len() ==> {
                let i = #[trigger] out_index(tries)[k];
                &&& 0 <= i < let_through(guarded(tries)).0.len()
                &&& let_through(guarded(tries)).0[i] == out_at(tries)[k]
            },
        forall|j: int, k: int|
            0 <= j < k < out_index(tries).len() ==> #[trigger] out_index(tries)[j]
                < #[trigger] out_index(tries)[k],
    decreases tries.len(),
{
    if tries.len() > 0 {
        let rest = tries.drop_last();
        lemma_tried(rest);
        if tries.last().on {
            let times = guarded(tries);
            assert(times.drop_last() =~= guarded(rest));
            assert(times.last() == tries.last().at);
            let (t0, t1) = (let_through(guarded(rest)).0, let_through(times).0);
            assert forall|k: int| 0 <= k < out_at(tries).len() implies ({
                let i = #[trigger] out_index(tries)[k];
                &&& 0 <= i < t1.len()
                &&& t1[i] == out_at(tries)[k]
            }) by {
                if k < out_at(rest).len() {
                    let i = out_index(rest)[k];
                    assert(out_index(tries)[k] == i);
                    assert(t0[i] == out_at(rest)[k]);
                    assert(t1[i] == t0[i]);
                    assert(out_at(tries)[k] == out_at(rest)[k]);
                }
            }
            assert forall|j: int, k: int|
                0 <= j < k < out_index(tries).len() implies #[trigger] out_index(tries)[j]
                < #[trigger] out_index(tries)[k] by {
                assert(out_index(tries)[j] == out_index(rest)[j]);
                if k < out_index(rest).len() {
                    assert(out_index(tries)[k] == out_index(rest)[k]);
                }
            }
        }
    }
}

proof fn lemma_indices_spread(tries: Seq<Attempt>, i: int, d: int)
    requires
        0 <= i,
        0 <= d,
        i + d < out_index(tries).len(),
    ensures
        out_index(tries)[i] + d <= out_index(tries)[i + d],
    decreases d,
{
    lemma_tried(tries);
    if d > 0 {
        lemma_indices_spread(tries, i, d - 1);
        assert(out_index(tries)[i + d - 1] < out_index(tries)[i + d]);
    }
}

proof fn lemma_guarded_in_order(tries: Seq<Attempt>)
    requires
        forall|a: int, b: int| 0 <= a <= b < tries.len() ==> tries[a].at <= tries[b].at,
    ensures
        forall|a: int, b: int|
            0 <= a <= b < guarded(tries).len() ==> guarded(tries)[a] <= guarded(tries)[b],
        forall|a: int|
            0 <= a < guarded(tries).len() ==> #[trigger] guarded(tries)[a] <= tries.last().at,
    decreases tries.len(),
{
    if tries.len() > 0 {
        let rest = tries.drop_last();
        assert forall|a: int, b: int| 0 <= a <= b < rest.len() implies rest[a].at
            <= rest[b].at by {
            assert(tries[a].at <= tries[b].at);
        }
        lemma_guarded_in_order(rest);
        if rest.len() > 0 {
            assert(rest.last() == tries[tries.len() - 2]);
            assert(tries[tries.len() - 2].at <= tries[tries.len() - 1].at);
        }
        let (g, h) = (guarded(tries), guarded(rest));
        assert forall|a: int| 0 <= a < g.len() implies #[trigger] g[a] <= tries.last().at by {
            if a < h.len() {
                assert(g[a] == h[a]);
                assert(h[a] <= rest.last().at);
            }
        }
        assert forall|a: int, b: int| 0 <= a <= b < g.len() implies g[a] <= g[b] by {
            if b < h.len() {
                assert(g[a] == h[a] && g[b] == h[b]);
            } else if a < b {
                assert(g[b] == tries.last().at);
            }
        }
    }
}

proof fn lemma_pruned_suffix(log: Seq<u64>, now: u64)
    ensures
        pruned(log, now).len() <= log.len(),
        pruned(log, now) == log.skip(log.len() - pruned(log, now).len()),
        forall|i: int|
            0 <= i < log.len() - pruned(log, now).len() ==> now - #[trigger] log[i]
                >= DELIVERY_WINDOW_MS,
    decreases log.len(),
{
    if log.len() > 0 && now - log[0] >= DELIVERY_WINDOW_MS {
        let rest = log.drop_first();
        lemma_pruned_suffix(rest, now);
        let n = pruned(rest, now).len();
        assert(pruned(log, now) =~= log.skip(log.len() - n));
        assert forall|i: int| 0 <= i < log.len() - n implies now - #[trigger] log[i]
            >= DELIVERY_WINDOW_MS by {
            if i > 0 {
                assert(log[i] == rest[i - 1]);
            }
        }
    } else {
        assert(log.skip(0) =~= log);
    }
}

proof fn lemma_guard(times: Seq<u64>)
    requires
        forall|i: int, j: int| 0 <= i <= j < times.len() ==> times[i] <= times[j],
    ensures
        ({
            let (through, log) = let_through(times);
            &&& log.len() <= through.len()
            &&& log.len() <= DELIVERY_MAX
            &&& log == through.skip(through.len() - log.len())
            &&& forall|i: int| 0 <= i < through.len() ==> #[trigger] through[i] <= times.last()
            &&& forall|i: int|
                0 <= i < through.len() - log.len() ==> times.last() - #[trigger] through[i]
                    >= DELIVERY_WINDOW_MS
            &&& forall|i: int|
                0 <= i < through.len() - DELIVERY_MAX ==> #[trigger] through[i + DELIVERY_MAX]
                    - through[i] >= DELIVERY_WINDOW_MS
        }),
    decreases times.len(),
{
    let (through, log) = let_through(times);
    if times.len() == 0 {
        assert(log =~= through.skip(0));
    } else {
        let before = times.drop_last();
        assert forall|i: int, j: int| 0 <= i <= j < before.len() implies before[i] <= before[j] by {
            assert(times[i] <= times[j]);
        }
        lemma_guard(before);
        let (t0, l0) = let_through(before);
        let now = times.last();
        let kept = pruned(l0, now);
        lemma_pruned_suffix(l0, now);
        if before.len() > 0 {
            assert(before.last() == times[times.len() - 2]);
            assert(before.last() <= now);
        }
        // Everything let through and no longer kept is older than the window.
        assert forall|i: int| 0 <= i < t0.len() - kept.len() implies now - #[trigger] t0[i]
            >= DELIVERY_WINDOW_MS by {
            if i >= t0.len() - l0.len() {
                let k = i - (t0.len() - l0.len());
                assert(l0[k] == t0[i]);
            }
        }
        assert(kept =~= t0.skip(t0.len() - kept.len()));
        if kept.len() < DELIVERY_MAX {
            assert(log =~= through.skip(through.len() - log.len()));
            assert forall|i: int| 0 <= i < through.len() - DELIVERY_MAX implies #[trigger] through[i
                + DELIVERY_MAX] - through[i] >= DELIVERY_WINDOW_MS by {
                if i + DELIVERY_MAX < t0.len() {
                    assert(t0[i + DELIVERY_MAX] - t0[i] >= DELIVERY_WINDOW_MS);
                } else {
                    assert(now - t0[i] >= DELIVERY_WINDOW_MS);
                }
            }
        }
    }
}

proof fn lemma_through_in_order(times: Seq<u64>, i: int, j: int)
    requires
        forall|a: int, b: int| 0 <= a <= b < times.len() ==> times[a] <= times[b],
        0 <= i <= j < let_through(times).0.len(),
    ensures
        let_through(times).0[i] <= let_through(times).0[j],
    decreases times.len(),
{
    let before = times.drop_last();
    assert forall|a: int, b: int| 0 <= a <= b < before.len() implies before[a] <= before[b] by {
        assert(times[a] <= times[b]);
    }
    lemma_guard(before);
    if j < let_through(before).0.len() {
        lemma_through_in_order(before, i, j);
    } else if i < j {
        assert(let_through(before).0[i] <= before.last());
        if before.len() > 0 {
            assert(before.last() == times[times.len() - 2]);
            assert(times[times.len() - 2] <= times[times.len() - 1]);
        }
    }
}

/// The loop guard: while the clock does not run backwards, of any
/// `DELIVERY_MAX + 1` successive pushes that go out to one actor, the last
/// comes at least `DELIVERY_WINDOW_MS` after the first, whoever receives them
/// and however often delivery is switched. So no window ever sees more than
/// `DELIVERY_MAX` pushes.
pub proof fn law_delivery_rate(tries: Seq<Attempt>, i: int)
    requires
        forall|a: int, b: int| 0 <= a <= b < tries.len() ==> tries[a].at <= tries[b].at,
        0 <= i < out_at(tries).len() - DELIVERY_MAX,
    ensures
        out_at(tries)[i + DELIVERY_MAX] - out_at(tries)[i] >= DELIVERY_WINDOW_MS,
{
    let times = guarded(tries);
    let through = let_through(times).0;
    lemma_tried(tries);
    lemma_guarded_in_order(tries);
    lemma_guard(times);
    lemma_indices_spread(tries, i, DELIVERY_MAX as int);
    let (p, q) = (out_index(tries)[i], out_index(tries)[i + DELIVERY_MAX]);
    assert(through[p] == out_at(tries)[i]);
    assert(through[q] == out_at(tries)[i + DELIVERY_MAX]);
    assert(through[p + DELIVERY_MAX] - through[p] >= DELIVERY_WINDOW_MS);
    lemma_through_in_order(times, p + DELIVERY_MAX, q);
}

/// With the rate used up nothing goes out, and the message waits: an actor that
/// was pushed to `DELIVERY_MAX` times within the window is not pushed to.
pub proof fn law_rate_used_up(a: ActorState, on: bool, now_ms: u64)
    requires
        a.log.len() >= DELIVERY_MAX,
        forall|i: int| 0 <= i < a.log.len() ==> now_ms - #[trigger] a.log[i] < DELIVERY_WINDOW_MS,
    ensures
        push_to(a, on, now_ms) is None,
        pushed(a, on, now_ms) == a,
{
    assert(pruned(a.log, now_ms) == a.log);
    assert(pushed(a, on, now_ms) =~= a);
}

pub proof fn lemma_pruned_again(log: Seq<u64>, now: u64)
    ensures
        pruned(log, now).len() <= log.len(),
        pruned(pruned(log, now), now) == pruned(log, now),
        pruned(pruned(log, now).push(now), now) == pruned(log, now).push(now),
    decreases log.len(),
{
    if log.len() > 0 && now - log[0] >= DELIVERY_WINDOW_MS {
        lemma_pruned_again(log.drop_first(), now);
    }
}

proof fn lemma_pushes_counted(
    a: ActorState,
    slug: Seq<char>,
    now_ms: u64,
    msgs: Seq<RoomMessage>,
)
    requires
        a.log.len() <= DELIVERY_MAX,
    ensures
        ({
            let log = after_pushes(a, true, now_ms, msgs.len()).log;
            &&& log.len() <= DELIVERY_MAX
            &&& pushes(a, slug, true, now_ms, msgs).len() + pruned(a.log, now_ms).len() <= pruned(
                log,
                now_ms,
            ).len()
        }),
    decreases msgs.len(),
{
    if msgs.len() > 0 {
        let n = (msgs.len() - 1) as nat;
        lemma_pushes_counted(a, slug, now_ms, msgs.drop_last());
        lemma_pruned_again(after_pushes(a, true, now_ms, n).log, now_ms);
    }
}

/// A catch-up keeps to the rate: what goes out at once, and what went out
/// within the window before, is no more than `DELIVERY_MAX` together.
pub proof fn law_catch_up_within_rate(
    a: ActorState,
    slug: Seq<char>,
    store: Seq<RoomMessage>,
    on: bool,
    now_ms: u64,
)
    requires
        a.bounded(),
    ensures
        catch_up(a, slug, store, on, now_ms).len() + pruned(a.log, now_ms).len() <= DELIVERY_MAX,
{
    lemma_pruned_again(a.log, now_ms);
    let msgs = resolved(store, a.pending);
    if on {
        lemma_pushes_counted(a, slug, now_ms, msgs);
        lemma_pruned_again(after_pushes(a, true, now_ms, msgs.len()).log, now_ms);
    } else {
        lemma_off(a, slug, now_ms, msgs);
    }
}

/// No push, and no answer to one, takes a message off an actor's queue; and
/// none touches when the actor last acted.
pub proof fn law_push_keeps_pending(
    a: ActorState,
    on: bool,
    now_ms: u64,
    n: nat,
    conn: u64,
    sent: bool,
    now: u64,
)
    ensures
        after_pushes(a, on, now_ms, n).pending == a.pending,
        after_pushes(a, on, now_ms, n).last_activity == a.last_activity,
        answered(a, conn, sent, now).pending == a.pending,
        answered(a, conn, sent, now).last_activity == a.last_activity,
    decreases n,
{
    if n > 0 {
        law_push_keeps_pending(a, on, now_ms, (n - 1) as nat, conn, sent, now);
    }
}

/// With delivery off, messages are recorded and nothing else: no push goes
/// out, neither of a new message, nor when a receiver catches up, nor when an
/// actor has gone silent; and the queue is there for later.
pub proof fn law_delivery_off(
    a: ActorState,
    slug: Seq<char>,
    now_ms: u64,
    now: u64,
    store: Seq<RoomMessage>,
)
    ensures
        push_to(a, false, now_ms) is None,
        pushed(a, false, now_ms) == a,
        catch_up(a, slug, store, false, now_ms).len() == 0,
        caught_up(a, store, false, now_ms) == a,
        stall_pushes(a, slug, store, false, now_ms, now).len() == 0,
{
    lemma_off(a, slug, now_ms, resolved(store, a.pending));
    let b = bumped(a, now);
    lemma_off(b, slug, now_ms, resolved(store, b.pending));
}

proof fn lemma_off(a: ActorState, slug: Seq<char>, now_ms: u64, msgs: Seq<RoomMessage>)
    ensures
        after_pushes(a, false, now_ms, msgs.len()) == a,
        pushes(a, slug, false, now_ms, msgs).len() == 0,
    decreases msgs.len(),
{
    if msgs.len() > 0 {
        lemma_off(a, slug, now_ms, msgs.drop_last());
    }
}

/// With delivery off, looking at every stall watch puts nothing out.
pub proof fn law_off_is_silent(
    actors: Seq<Actor>,
    store: Seq<RoomMessage>,
    now_ms: u64,
    now: u64,
)
    ensures
        all_stall_pushes(actors, store, false, now_ms, now).len() == 0,
    decreases actors.len(),
{
    if actors.len() > 0 {
        law_off_is_silent(actors.drop_last(), store, now_ms, now);
        law_delivery_off(actors.last()@, actors.last().slug@, now_ms, now, store);
    }
}

/// A receiver that did not take a push gets nothing more: the rest of its batch
/// is no longer due.
pub proof fn law_gone_receiver_gets_no_more(a: ActorState, conn: u64, now: u64)
    ensures
        answered(a, conn, false, now).conn != Some(conn),
{
}

/// A queue never exceeds its cap; the newest message is in it, and what is
/// dropped is the oldest.
pub proof fn law_queue_keeps_newest(a: ActorState, id: u64)
    requires
        a.pending.len() <= PENDING_CAP,
    ensures
        queued(a, id).pending.len() <= PENDING_CAP,
        queued(a, id).pending.last() == id,
        a.pending.len() < PENDING_CAP ==> queued(a, id).pending == a.pending.push(id),
        a.pending.len() == PENDING_CAP ==> queued(a, id).pending == a.pending.drop_first().push(id),
{
    if a.pending.len() == PENDING_CAP {
        assert(a.pending.push(id).skip(1) =~= a.pending.drop_first().push(id));
    }
}

proof fn lemma_stored_id(store: Seq<RoomMessage>, id: u64)
    ensures
        stored(store, id) matches Some(m) ==> m.message_id == id,
    decreases store.len(),
{
    if store.len() > 0 {
        lemma_stored_id(store.drop_first(), id);
    }
}

proof fn lemma_resolved_ids(store: Seq<RoomMessage>, ids: Seq<u64>, i: int)
    requires
        0 <= i < resolved(store, ids).len(),
    ensures
        ids.contains(resolved(store, ids)[i].message_id),
    decreases ids.len(),
{
    let id = ids.last();
    let rest = ids.drop_last();
    lemma_stored_id(store, id);
    if i < resolved(store, rest).len() {
        lemma_resolved_ids(store, rest, i);
        let m = resolved(store, rest)[i].message_id;
        let k = choose|k: int| 0 <= k < rest.len() && rest[k] == m;
        assert(ids[k] == m);
    } else {
        assert(ids[ids.len() - 1] == id);
    }
}

/// An acknowledged message is not delivered again: once it is off the queue,
/// no catch-up hands it out.
pub proof fn law_acked_is_done(store: Seq<RoomMessage>, queue: Seq<u64>, id: u64, i: int)
    requires
        0 <= i < resolved(store, queue.filter(|x: u64| x != id)).len(),
    ensures
        resolved(store, queue.filter(|x: u64| x != id))[i].message_id != id,
{
    let left = queue.filter(|x: u64| x != id);
    lemma_resolved_ids(store, left, i);
    let m = resolved(store, left)[i].message_id;
    let k = choose|k: int| 0 <= k < left.len() && left[k] == m;
    queue.lemma_filter_pred(|x: u64| x != id, k);
}

/// Everything that is still pending and still stored is handed out by a
/// catch-up, oldest first: a message sent while the actor was away arrives.
pub proof fn law_catch_up_is_complete(store: Seq<RoomMessage>, queue: Seq<u64>, k: int)
    requires
        0 <= k < queue.len(),
        stored(store, queue[k]) is Some,
    ensures
        resolved(store, queue).contains(stored(store, queue[k])->0),
    decreases queue.len(),
{
    let rest = queue.drop_last();
    if k < rest.len() {
        law_catch_up_is_complete(store, rest, k);
        let m = stored(store, queue[k])->0;
        let i = choose|i: int| 0 <= i < resolved(store, rest).len() && resolved(store, rest)[i] == m;
        assert(resolved(store, queue)[i] == m);
    } else {
        let all = resolved(store, queue);
        assert(all[all.len() - 1] == stored(store, queue[k])->0);
    }
}

proof fn lemma_push_keeps_watch(a: ActorState, on: bool, now_ms: u64, n: nat)
    ensures
        after_pushes(a, on, now_ms, n).watch == a.watch,
    decreases n,
{
    if n > 0 {
        lemma_push_keeps_watch(a, on, now_ms, (n - 1) as nat);
    }
}

/// Every silent deadline uses up one retry, which no answer gives back, and
/// with the last one used the watch ends and nothing more goes out: an actor
/// that stays silent is delivered to again at most `MAX_REDELIVERY` times.
pub proof fn law_redelivery_ends(
    a: ActorState,
    slug: Seq<char>,
    store: Seq<RoomMessage>,
    on: bool,
    now_ms: u64,
    now: u64,
    conn: u64,
    sent: bool,
)
    requires
        a.bounded(),
        stalled(a, now),
    ensures
        a.watch->0.retries == MAX_REDELIVERY ==> {
            &&& stall_checked(a, store, on, now_ms, now).watch is None
            &&& stall_pushes(a, slug, store, on, now_ms, now).len() == 0
        },
        stall_checked(a, store, on, now_ms, now).watch matches Some(w) ==> w.retries
            == a.watch->0.retries + 1,
        stall_checked(a, store, on, now_ms, now).pending == a.pending,
        answered(a, conn, sent, now).watch matches Some(w) && w.retries == a.watch->0.retries,
{
    if !given_up(a) {
        let b = bumped(a, now);
        let n = resolved(store, b.pending).len();
        lemma_push_keeps_watch(b, on, now_ms, n);
        law_push_keeps_pending(b, on, now_ms, n, conn, sent, now);
    }
}

} // verus!

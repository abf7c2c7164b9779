//! The room: who is waiting for which message, and when it is delivered.
//!
//! A directed message is recorded, queued for its addressee, and pushed to the
//! addressee's receiver when there is one. A push is a value: what is not
//! returned is not sent, and the host reports how each one went. What was
//! pushed but not consumed stays queued. A guard bounds the rate of pushes to one actor, and a watch
//! re-delivers to an actor that went silent, a bounded number of times.

use crate::text::{agent_name, agent_name_from_slug, opt_text, same_text};
use vstd::prelude::*;

verus! {

/// Cap on un-consumed directed messages held per actor for catch-up; oldest
/// are dropped first.
pub const PENDING_CAP: usize = 64;

/// At most `DELIVERY_MAX` pushes to one actor per `DELIVERY_WINDOW_MS`.
/// Over-cap deliveries defer: the message stays pending.
pub const DELIVERY_WINDOW_MS: u64 = 10_000;

pub const DELIVERY_MAX: usize = 8;

/// Nanoseconds in a millisecond.
pub const MS: u64 = 1_000_000;

/// The latest moment, in nanoseconds on the host's monotonic clock, that the
/// library takes: deadlines are sums, and they must not overflow.
pub const LATEST: u64 = 0x7fff_ffff_ffff_ffff;

/// If a delivered-to actor produces no activity within this, its messages are
/// delivered again, up to `MAX_REDELIVERY` times.
pub const STALL_DEADLINE: u64 = 30_000_000_000;

pub const MAX_REDELIVERY: u8 = 3;

/// When a stalled delivery is due again, and how often it was repeated.
#[derive(Copy, Clone, PartialEq, Eq, Structural, Debug)]
pub struct Watch {
    pub deadline: u64,
    pub retries: u8,
}

/// A directed message on its way to a receiver.
#[derive(Debug, PartialEq, Eq)]
pub struct RoomMessage {
    pub message_id: u64,
    pub from: String,
    pub text: String,
}

impl RoomMessage {
    pub fn copy(&self) -> (m: RoomMessage)
        ensures
            m == *self,
    {
        RoomMessage {
            message_id: self.message_id,
            from: self.from.clone(),
            text: self.text.clone(),
        }
    }
}

/// A message as the activity stream records it.
#[derive(Debug, PartialEq, Eq)]
pub struct Recorded {
    pub actor: String,
    pub agent_name: String,
    pub to: Option<String>,
    pub text: String,
}

/// A message that is to be handed to a receiver.
#[derive(Debug, PartialEq, Eq)]
pub struct Push {
    pub target: String,
    pub conn: u64,
    pub message: RoomMessage,
}

/// What the room keeps of one actor.
pub struct Actor {
    pub slug: String,
    /// The connection that receives the actor's messages.
    pub conn: Option<u64>,
    /// Messages recorded but not consumed, oldest first.
    pub pending: Vec<u64>,
    /// Recent deliveries, in milliseconds, oldest first.
    pub log: Vec<u64>,
    /// Set while a delivered message has met with silence.
    pub watch: Option<Watch>,
    /// When the actor last did something.
    pub last_activity: Option<u64>,
}

/// What the room keeps of one actor, as a value.
#[verifier::ext_equal]
pub struct ActorState {
    pub conn: Option<u64>,
    pub pending: Seq<u64>,
    pub log: Seq<u64>,
    pub watch: Option<Watch>,
    pub last_activity: Option<u64>,
}

/// An actor that the room has never heard of.
pub open spec fn unknown_actor() -> ActorState {
    ActorState {
        conn: None,
        pending: Seq::empty(),
        log: Seq::empty(),
        watch: None,
        last_activity: None,
    }
}

impl View for Actor {
    type V = ActorState;

    open spec fn view(&self) -> ActorState {
        ActorState {
            conn: self.conn,
            pending: self.pending@,
            log: self.log@,
            watch: self.watch,
            last_activity: self.last_activity,
        }
    }
}

impl ActorState {
    /// The bounds that every operation keeps.
    pub open spec fn bounded(self) -> bool {
        &&& self.pending.len() <= PENDING_CAP
        &&& self.log.len() <= DELIVERY_MAX
        &&& self.watch matches Some(w) ==> w.retries <= MAX_REDELIVERY
    }
}

/// The delivery times of `log` that still count at `now`: those from the first
/// one on that is younger than the window.
pub open spec fn pruned(log: Seq<u64>, now: u64) -> Seq<u64>
    decreases log.len(),
{
    if log.len() > 0 && now - log[0] >= DELIVERY_WINDOW_MS {
        pruned(log.drop_first(), now)
    } else {
        log
    }
}

/// The last `PENDING_CAP` messages of a queue.
pub open spec fn newest(q: Seq<u64>) -> Seq<u64> {
    if q.len() > PENDING_CAP {
        q.skip(q.len() - PENDING_CAP)
    } else {
        q
    }
}

/// The connection that a push goes to: the actor's receiver, where delivery is
/// on and the rate allows it.
pub open spec fn push_to(a: ActorState, on: bool, now_ms: u64) -> Option<u64> {
    if on && pruned(a.log, now_ms).len() < DELIVERY_MAX {
        a.conn
    } else {
        None
    }
}

/// An actor after an attempt to push to it. An attempt that the rate allows
/// counts, whether or not there is a receiver.
pub open spec fn pushed(a: ActorState, on: bool, now_ms: u64) -> ActorState {
    let log = pruned(a.log, now_ms);
    if !on {
        a
    } else if log.len() >= DELIVERY_MAX {
        ActorState { log, ..a }
    } else {
        ActorState { log: log.push(now_ms), ..a }
    }
}

/// An actor after `n` attempts to push to it.
pub open spec fn after_pushes(a: ActorState, on: bool, now_ms: u64, n: nat) -> ActorState
    decreases n,
{
    if n == 0 {
        a
    } else {
        pushed(after_pushes(a, on, now_ms, (n - 1) as nat), on, now_ms)
    }
}

/// An actor once the receiver `conn` has answered a push: one that took it is
/// expected to act, and one that is gone is dropped.
pub open spec fn answered(a: ActorState, conn: u64, sent: bool, now: u64) -> ActorState {
    if sent {
        let retries = match a.watch {
            Some(w) => w.retries,
            None => 0,
        };
        ActorState {
            watch: Some(Watch { deadline: (now + STALL_DEADLINE) as u64, retries }),
            ..a
        }
    } else if a.conn == Some(conn) {
        ActorState { conn: None, ..a }
    } else {
        a
    }
}

/// The first stored message with the id `id`.
pub open spec fn stored(store: Seq<RoomMessage>, id: u64) -> Option<RoomMessage>
    decreases store.len(),
{
    if store.len() == 0 {
        None
    } else if store[0].message_id == id {
        Some(store[0])
    } else {
        stored(store.drop_first(), id)
    }
}

/// The stored messages of a queue, in its order.
pub open spec fn resolved(store: Seq<RoomMessage>, ids: Seq<u64>) -> Seq<RoomMessage>
    decreases ids.len(),
{
    if ids.len() == 0 {
        Seq::empty()
    } else {
        match stored(store, ids.last()) {
            Some(m) => resolved(store, ids.drop_last()).push(m),
            None => resolved(store, ids.drop_last()),
        }
    }
}

/// A push, as a value: whom it is for, which connection it goes to, and what
/// it carries.
pub open spec fn push_view(p: Push) -> (Seq<char>, u64, RoomMessage) {
    (p.target@, p.conn, p.message)
}

/// Pushes, as values.
pub open spec fn push_views(ps: Seq<Push>) -> Seq<(Seq<char>, u64, RoomMessage)> {
    ps.map_values(|p: Push| push_view(p))
}

/// The pushes that go out when `msgs` are pushed to `slug` in their order.
pub open spec fn pushes(
    a: ActorState,
    slug: Seq<char>,
    on: bool,
    now_ms: u64,
    msgs: Seq<RoomMessage>,
) -> Seq<(Seq<char>, u64, RoomMessage)>
    decreases msgs.len(),
{
    if msgs.len() == 0 {
        Seq::empty()
    } else {
        let n = (msgs.len() - 1) as nat;
        let rest = pushes(a, slug, on, now_ms, msgs.drop_last());
        match push_to(after_pushes(a, on, now_ms, n), on, now_ms) {
            Some(conn) => rest.push((slug, conn, msgs.last())),
            None => rest,
        }
    }
}

/// An actor that has just acted: it is awake, and nothing is stalled.
pub open spec fn woken(a: ActorState, now: u64) -> ActorState {
    ActorState { watch: None, last_activity: Some(now), ..a }
}

/// Every id but `id`.
pub open spec fn all_but(id: u64) -> spec_fn(u64) -> bool {
    |x: u64| x != id
}

/// An actor once it has consumed the message `id`.
pub open spec fn acknowledged(a: ActorState, id: u64) -> ActorState {
    ActorState { pending: a.pending.filter(all_but(id)), ..a }
}

/// An actor once the connection `conn` is gone.
pub open spec fn disconnected(a: ActorState, conn: u64) -> ActorState {
    if a.conn == Some(conn) {
        ActorState { conn: None, ..a }
    } else {
        a
    }
}

/// An actor with one more message waiting for it.
pub open spec fn queued(a: ActorState, id: u64) -> ActorState {
    ActorState { pending: newest(a.pending.push(id)), ..a }
}

/// The actor's delivery has met with silence for too long.
pub open spec fn stalled(a: ActorState, now: u64) -> bool {
    a.watch matches Some(w) && now >= w.deadline
}

/// A stalled delivery is given up: nothing is left to deliver, or it has been
/// repeated often enough.
pub open spec fn given_up(a: ActorState) -> bool {
    a.pending.len() == 0 || a.watch->0.retries >= MAX_REDELIVERY
}

/// A stalled actor just before its messages are delivered again.
pub open spec fn bumped(a: ActorState, now: u64) -> ActorState {
    ActorState {
        watch: Some(
            Watch {
                deadline: (now + STALL_DEADLINE) as u64,
                retries: (a.watch->0.retries + 1) as u8,
            },
        ),
        ..a
    }
}

/// An actor once everything pending for it has been pushed again.
pub open spec fn caught_up(
    a: ActorState,
    store: Seq<RoomMessage>,
    on: bool,
    now_ms: u64,
) -> ActorState {
    after_pushes(a, on, now_ms, resolved(store, a.pending).len())
}

/// The pushes that go out when everything pending for an actor is pushed
/// again, oldest first.
pub open spec fn catch_up(
    a: ActorState,
    slug: Seq<char>,
    store: Seq<RoomMessage>,
    on: bool,
    now_ms: u64,
) -> Seq<(Seq<char>, u64, RoomMessage)> {
    pushes(a, slug, on, now_ms, resolved(store, a.pending))
}

/// An actor once its stall watch has been looked at.
pub open spec fn stall_checked(
    a: ActorState,
    store: Seq<RoomMessage>,
    on: bool,
    now_ms: u64,
    now: u64,
) -> ActorState {
    if !stalled(a, now) {
        a
    } else if given_up(a) {
        ActorState { watch: None, ..a }
    } else {
        caught_up(bumped(a, now), store, on, now_ms)
    }
}

/// The pushes that go out when an actor's stall watch is looked at.
pub open spec fn stall_pushes(
    a: ActorState,
    slug: Seq<char>,
    store: Seq<RoomMessage>,
    on: bool,
    now_ms: u64,
    now: u64,
) -> Seq<(Seq<char>, u64, RoomMessage)> {
    if stalled(a, now) && !given_up(a) {
        catch_up(bumped(a, now), slug, store, on, now_ms)
    } else {
        Seq::empty()
    }
}

/// The pushes that go out when every stall watch is looked at, in the order of
/// the list.
pub open spec fn all_stall_pushes(
    actors: Seq<Actor>,
    store: Seq<RoomMessage>,
    on: bool,
    now_ms: u64,
    now: u64,
) -> Seq<(Seq<char>, u64, RoomMessage)>
    decreases actors.len(),
{
    if actors.len() == 0 {
        Seq::empty()
    } else {
        let a = actors.last();
        all_stall_pushes(actors.drop_last(), store, on, now_ms, now) + stall_pushes(
            a@,
            a.slug@,
            store,
            on,
            now_ms,
            now,
        )
    }
}

/// The record that a message leaves in the activity stream.
pub open spec fn records(r: Recorded, from: Seq<char>, to: Option<Seq<char>>, text: Seq<char>) -> bool {
    &&& r.actor@ == from
    &&& r.agent_name@ == agent_name(from)
    &&& r.text@ == text
    &&& match to {
        Some(t) => r.to matches Some(s) && s@ == t,
        None => r.to is None,
    }
}

/// `p` is the push of `text` from `from` under the id `id` to `slug`, which is
/// `a`; there is none where the rate, the human or a missing receiver stands
/// against it.
pub open spec fn carries(
    p: Option<Push>,
    a: ActorState,
    slug: Seq<char>,
    id: u64,
    from: Seq<char>,
    text: Seq<char>,
    on: bool,
    now_ms: u64,
) -> bool {
    match push_to(a, on, now_ms) {
        None => p is None,
        Some(conn) => p matches Some(x) && {
            &&& x.target@ == slug
            &&& x.conn == conn
            &&& x.message.message_id == id
            &&& x.message.from@ == from
            &&& x.message.text@ == text
        },
    }
}

/// `after` is the room `before` once the message `m` has been recorded under
/// the id `id`: the speaker is awake, and the addressee has the message queued
/// and pushed. `p` is the push that goes out.
pub open spec fn emitted(
    before: Room,
    after: Room,
    m: Recorded,
    id: u64,
    on: bool,
    now_ms: u64,
    now: u64,
    p: Option<Push>,
) -> bool {
    &&& forall|s: Seq<char>|
        opt_text(m.to) != Some(s) ==> #[trigger] after.actor(s) == before.after_speech(
            s,
            m.actor@,
            now,
        )
    &&& match m.to {
        None => p is None,
        Some(t) => {
            let a = queued(before.after_speech(t@, m.actor@, now), id);
            &&& after.actor(t@) == pushed(a, on, now_ms)
            &&& carries(p, a, t@, id, m.actor@, m.text@, on, now_ms)
        },
    }
}

/// The first stored message with the id `id`.
fn find_stored(store: &Vec<RoomMessage>, id: u64) -> (r: Option<usize>)
    ensures
        match r {
            Some(i) => i < store@.len() && stored(store@, id) == Some(store@[i as int]),
            None => stored(store@, id) is None,
        },
{
    let mut i: usize = 0;
    assert(store@.skip(0) =~= store@);
    while i < store.len()
        invariant
            i <= store@.len(),
            stored(store@, id) == stored(store@.skip(i as int), id),
        decreases store.len() - i,
    {
        if store[i].message_id == id {
            return Some(i);
        }
        assert(store@.skip(i as int).drop_first() =~= store@.skip(i + 1));
        i = i + 1;
    }
    None
}

/// The stored messages of a queue, in its order.
pub fn resolve(store: &Vec<RoomMessage>, ids: &Vec<u64>) -> (r: Vec<RoomMessage>)
    ensures
        r@ == resolved(store@, ids@),
{
    let mut r: Vec<RoomMessage> = Vec::new();
    let mut i: usize = 0;
    while i < ids.len()
        invariant
            i <= ids@.len(),
            r@ == resolved(store@, ids@.take(i as int)),
        decreases ids.len() - i,
    {
        assert(ids@.take(i + 1).drop_last() =~= ids@.take(i as int));
        if let Some(k) = find_stored(store, ids[i]) {
            r.push(store[k].copy());
        }
        i = i + 1;
    }
    assert(ids@.take(ids@.len() as int) =~= ids@);
    r
}

pub struct Room {
    pub actors: Vec<Actor>,
}

impl Room {
    /// No actor is listed twice.
    pub open spec fn wf(self) -> bool {
        &&& forall|i: int, j: int|
            0 <= i < j < self.actors@.len() ==> #[trigger] self.actors@[i].slug@
                != #[trigger] self.actors@[j].slug@
        &&& forall|i: int| 0 <= i < self.actors@.len() ==> (#[trigger] self.actors@[i])@.bounded()
    }

    /// Where `slug` stands in the list, if it does.
    pub open spec fn listed(self, slug: Seq<char>, i: int) -> bool {
        0 <= i < self.actors@.len() && self.actors@[i].slug@ == slug
    }

    /// What the room keeps of `slug`.
    pub open spec fn actor(self, slug: Seq<char>) -> ActorState {
        if exists|i: int| self.listed(slug, i) {
            self.actors@[choose|i: int| self.listed(slug, i)]@
        } else {
            unknown_actor()
        }
    }

    /// What the room keeps of `slug` once `from` has spoken.
    pub open spec fn after_speech(self, slug: Seq<char>, from: Seq<char>, now: u64) -> ActorState {
        if slug == from {
            woken(self.actor(slug), now)
        } else {
            self.actor(slug)
        }
    }

    pub proof fn lemma_listed(self, slug: Seq<char>, i: int)
        requires
            self.wf(),
            self.listed(slug, i),
        ensures
            self.actor(slug) == self.actors@[i]@,
    {
        let j = choose|j: int| self.listed(slug, j);
        assert(self.listed(slug, j));
        if i < j {
            assert(self.actors@[i].slug@ != self.actors@[j].slug@);
        } else if j < i {
            assert(self.actors@[j].slug@ != self.actors@[i].slug@);
        }
    }

    /// Every actor's record keeps the bounds.
    pub proof fn lemma_bounded(self, slug: Seq<char>)
        requires
            self.wf(),
        ensures
            self.actor(slug).bounded(),
    {
        if exists|i: int| self.listed(slug, i) {
            let i = choose|i: int| self.listed(slug, i);
            assert(self.actors@[i]@.bounded());
        }
    }

    /// The position of `slug` in the list.
    fn find(&self, slug: &str) -> (r: Option<usize>)
        requires
            self.wf(),
        ensures
            match r {
                Some(i) => self.listed(slug@, i as int) && self.actor(slug@)
                    == self.actors@[i as int]@,
                None => self.actor(slug@) == unknown_actor() && forall|i: int|
                    !self.listed(slug@, i),
            },
    {
        let mut i: usize = 0;
        while i < self.actors.len()
            invariant
                self.wf(),
                i <= self.actors@.len(),
                forall|k: int| 0 <= k < i ==> #[trigger] self.actors@[k].slug@ != slug@,
            decreases self.actors.len() - i,
        {
            if same_text(self.actors[i].slug.as_str(), slug) {
                proof {
                    self.lemma_listed(slug@, i as int);
                }
                return Some(i);
            }
            i = i + 1;
        }
        None
    }

    /// The position of `slug` in the list, which it joins if it was not there.
    fn entry(&mut self, slug: &str) -> (i: usize)
        requires
            old(self).wf(),
        ensures
            final(self).wf(),
            final(self).listed(slug@, i as int),
            forall|s: Seq<char>| final(self).actor(s) == old(self).actor(s),
    {
        if let Some(i) = self.find(slug) {
            return i;
        }
        let n = self.actors.len();
        self.actors.push(
            Actor {
                slug: slug.to_owned(),
                conn: None,
                pending: Vec::new(),
                log: Vec::new(),
                watch: None,
                last_activity: None,
            },
        );
        proof {
            let o = *old(self);
            let f = *self;
            assert(f.actors@[n as int]@ =~= unknown_actor());
            assert forall|a: int, b: int| 0 <= a < b < f.actors@.len() implies #[trigger] f.actors@[a].slug@
                != #[trigger] f.actors@[b].slug@ by {
                assert(!o.listed(slug@, a));
                if b < n {
                    assert(o.actors@[a].slug@ != o.actors@[b].slug@);
                }
            }
            assert forall|a: int| 0 <= a < f.actors@.len() implies (
            #[trigger] f.actors@[a])@.bounded() by {
                if a < n {
                    assert(o.actors@[a]@.bounded());
                }
            }
            assert(f.wf());
            assert forall|s: Seq<char>| f.actor(s) == o.actor(s) by {
                if s == slug@ {
                    assert(f.listed(s, n as int));
                    f.lemma_listed(s, n as int);
                } else if exists|i: int| o.listed(s, i) {
                    let i = choose|i: int| o.listed(s, i);
                    assert(f.listed(s, i));
                    f.lemma_listed(s, i);
                    o.lemma_listed(s, i);
                } else {
                    assert forall|i: int| !f.listed(s, i) by {
                        assert(!o.listed(s, i));
                    }
                }
            }
        }
        n
    }

    /// Writing one record changes that actor alone.
    pub proof fn lemma_updated(before: Room, after: Room, i: int)
        requires
            before.wf(),
            0 <= i < before.actors@.len(),
            after.actors@.len() == before.actors@.len(),
            forall|k: int|
                0 <= k < before.actors@.len() && k != i ==> #[trigger] after.actors@[k]
                    == before.actors@[k],
            after.actors@[i].slug@ == before.actors@[i].slug@,
            after.actors@[i]@.bounded(),
        ensures
            after.wf(),
            after.actor(before.actors@[i].slug@) == after.actors@[i]@,
            forall|s: Seq<char>|
                s != before.actors@[i].slug@ ==> #[trigger] after.actor(s) == before.actor(s),
    {
        assert forall|a: int, b: int| 0 <= a < b < after.actors@.len() implies #[trigger] after.actors@[a].slug@
            != #[trigger] after.actors@[b].slug@ by {
            assert(before.actors@[a].slug@ != before.actors@[b].slug@);
        }
        assert(after.wf());
        assert(after.listed(before.actors@[i].slug@, i));
        after.lemma_listed(before.actors@[i].slug@, i);
        assert forall|s: Seq<char>| s != before.actors@[i].slug@ implies #[trigger] after.actor(s)
            == before.actor(s) by {
            if exists|k: int| before.listed(s, k) {
                let k = choose|k: int| before.listed(s, k);
                assert(after.listed(s, k));
                after.lemma_listed(s, k);
                before.lemma_listed(s, k);
            } else {
                assert forall|k: int| !after.listed(s, k) by {
                    assert(!before.listed(s, k));
                }
            }
        }
    }

    /// Push a directed message down a subscribed actor's receiver connection.
    /// The result is what goes out, if anything does.
    pub fn push_room_message(
        &mut self,
        target: &str,
        message: RoomMessage,
        on: bool,
        now_ms: u64,
    ) -> (r: Option<Push>)
        requires
            old(self).wf(),
        ensures
            final(self).wf(),
            forall|s: Seq<char>|
                s != target@ ==> #[trigger] final(self).actor(s) == old(self).actor(s),
            final(self).actor(target@) == pushed(old(self).actor(target@), on, now_ms),
            match push_to(old(self).actor(target@), on, now_ms) {
                None => r is None,
                Some(conn) => r matches Some(p) && p.target@ == target@ && p.conn == conn
                    && p.message == message,
            },
    {
        let i = self.entry(target);
        let ghost base = *self;
        proof {
            base.lemma_listed(target@, i as int);
            base.lemma_bounded(target@);
        }
        let r = self.actors[i].push(message, on, now_ms);
        proof {
            Room::lemma_updated(base, *self, i as int);
        }
        r
    }

    /// Whether `p` goes out when its turn comes: its receiver has not been
    /// dropped meanwhile.
    pub open spec fn due(self, p: Push) -> bool {
        self.actor(p.target@).conn == Some(p.conn)
    }

    /// The position of the first push of `ps` that is still due.
    pub open spec fn first_due(self, ps: Seq<Push>) -> int
        decreases ps.len(),
    {
        if ps.len() == 0 || self.due(ps[0]) {
            0
        } else {
            1 + self.first_due(ps.drop_first())
        }
    }

    /// The next push of a batch. Those whose receiver has been dropped are
    /// passed over.
    pub fn next_push(&self, batch: &mut Vec<Push>) -> (r: Option<Push>)
        requires
            self.wf(),
        ensures
            ({
                let n = self.first_due(old(batch)@);
                if n < old(batch)@.len() {
                    r == Some(old(batch)@[n]) && final(batch)@ == old(batch)@.skip(n + 1)
                } else {
                    r is None && final(batch)@.len() == 0
                }
            }),
    {
        let ghost all = batch@;
        let ghost mut n: int = 0;
        assert(all.skip(0) =~= all);
        while batch.len() > 0
            invariant
                self.wf(),
                all == old(batch)@,
                0 <= n <= all.len(),
                batch@ == all.skip(n),
                self.first_due(all) == n + self.first_due(batch@),
            decreases batch@.len(),
        {
            let ghost rest = batch@;
            let p = batch.remove(0);
            proof {
                assert(rest[0] == all[n]);
                assert(batch@ =~= rest.drop_first());
                assert(batch@ =~= all.skip(n + 1));
            }
            let conn = match self.find(p.target.as_str()) {
                Some(i) => self.actors[i].conn,
                None => None,
            };
            if let Some(c) = conn {
                if c == p.conn {
                    return Some(p);
                }
            }
            proof {
                n = n + 1;
            }
        }
        None
    }

    /// The receiver `conn` of `target` has taken a push, or has not.
    pub fn push_answered(&mut self, target: &str, conn: u64, sent: bool, now: u64)
        requires
            old(self).wf(),
            now <= LATEST,
        ensures
            final(self).wf(),
            forall|s: Seq<char>|
                s != target@ ==> #[trigger] final(self).actor(s) == old(self).actor(s),
            final(self).actor(target@) == answered(old(self).actor(target@), conn, sent, now),
    {
        let i = self.entry(target);
        let ghost base = *self;
        proof {
            base.lemma_listed(target@, i as int);
            base.lemma_bounded(target@);
        }
        self.actors[i].answer(conn, sent, now);
        proof {
            Room::lemma_updated(base, *self, i as int);
        }
    }

    /// Re-deliver every un-consumed directed message for `actor`: catch-up when
    /// a receiver subscribes, so a message sent while the agent was away still
    /// arrives.
    pub fn deliver_pending(
        &mut self,
        actor: &str,
        store: &Vec<RoomMessage>,
        on: bool,
        now_ms: u64,
    ) -> (r: Vec<Push>)
        requires
            old(self).wf(),
        ensures
            final(self).wf(),
            forall|s: Seq<char>|
                s != actor@ ==> #[trigger] final(self).actor(s) == old(self).actor(s),
            final(self).actor(actor@) == caught_up(old(self).actor(actor@), store@, on, now_ms),
            push_views(r@) == catch_up(old(self).actor(actor@), actor@, store@, on, now_ms),
    {
        let i = self.entry(actor);
        let ghost base = *self;
        proof {
            base.lemma_listed(actor@, i as int);
            base.lemma_bounded(actor@);
        }
        let mut r: Vec<Push> = Vec::new();
        self.actors[i].deliver(store, on, now_ms, &mut r);
        proof {
            Room::lemma_updated(base, *self, i as int);
            assert(push_views(r@) =~= catch_up(
                old(self).actor(actor@),
                actor@,
                store@,
                on,
                now_ms,
            ));
        }
        r
    }

    /// Park a connection as the push target for an actor's directed messages,
    /// and deliver what arrived while the actor was away.
    pub fn room_subscribe(
        &mut self,
        conn: u64,
        actor: &str,
        store: &Vec<RoomMessage>,
        on: bool,
        now_ms: u64,
    ) -> (r: Vec<Push>)
        requires
            old(self).wf(),
        ensures
            final(self).wf(),
            forall|s: Seq<char>|
                s != actor@ ==> #[trigger] final(self).actor(s) == old(self).actor(s),
            ({
                let a = ActorState { conn: Some(conn), ..old(self).actor(actor@) };
                &&& final(self).actor(actor@) == caught_up(a, store@, on, now_ms)
                &&& push_views(r@) == catch_up(a, actor@, store@, on, now_ms)
            }),
    {
        let i = self.entry(actor);
        let ghost base = *self;
        proof {
            base.lemma_listed(actor@, i as int);
            base.lemma_bounded(actor@);
        }
        self.actors[i].conn = Some(conn);
        let ghost a = ActorState { conn: Some(conn), ..old(self).actor(actor@) };
        assert(self.actors@[i as int]@ =~= a);
        let mut r: Vec<Push> = Vec::new();
        self.actors[i].deliver(store, on, now_ms, &mut r);
        proof {
            Room::lemma_updated(base, *self, i as int);
            assert(push_views(r@) =~= catch_up(a, actor@, store@, on, now_ms));
        }
        r
    }

    /// A receiver has surfaced a message: drop it from its addressee's queue,
    /// so it is not delivered again.
    pub fn room_ack(&mut self, actor: &str, id: u64)
        requires
            old(self).wf(),
        ensures
            final(self).wf(),
            forall|s: Seq<char>|
                s != actor@ ==> #[trigger] final(self).actor(s) == old(self).actor(s),
            final(self).actor(actor@) == acknowledged(old(self).actor(actor@), id),
    {
        let i = self.entry(actor);
        let ghost base = *self;
        proof {
            base.lemma_listed(actor@, i as int);
            base.lemma_bounded(actor@);
        }
        let ghost q = self.actors@[i as int].pending@;
        let mut kept: Vec<u64> = Vec::new();
        let mut k: usize = 0;
        while k < self.actors[i].pending.len()
            invariant
                *self == base,
                i < self.actors@.len(),
                q == self.actors@[i as int].pending@,
                k <= q.len(),
                kept@ == q.take(k as int).filter(all_but(id)),
                kept@.len() <= k,
            decreases q.len() - k,
        {
            let x = self.actors[i].pending[k];
            proof {
                reveal(Seq::filter);
                assert(q.take(k + 1).drop_last() =~= q.take(k as int));
            }
            if x != id {
                kept.push(x);
            }
            k = k + 1;
        }
        assert(q.take(q.len() as int) =~= q);
        self.actors[i].pending = kept;
        proof {
            Room::lemma_updated(base, *self, i as int);
        }
    }

    /// An actor has acted: clear any stall watch on it and stamp its activity.
    pub fn wake(&mut self, actor: &str, now: u64)
        requires
            old(self).wf(),
        ensures
            final(self).wf(),
            forall|s: Seq<char>|
                s != actor@ ==> #[trigger] final(self).actor(s) == old(self).actor(s),
            final(self).actor(actor@) == woken(old(self).actor(actor@), now),
    {
        let i = self.entry(actor);
        let ghost base = *self;
        proof {
            base.lemma_listed(actor@, i as int);
            base.lemma_bounded(actor@);
        }
        self.actors[i].watch = None;
        self.actors[i].last_activity = Some(now);
        assert(self.actors@[i as int]@ =~= woken(old(self).actor(actor@), now));
        proof {
            Room::lemma_updated(base, *self, i as int);
        }
    }

    /// Queue a message for an actor; the oldest goes where the queue is full.
    fn enqueue(&mut self, actor: &str, id: u64)
        requires
            old(self).wf(),
        ensures
            final(self).wf(),
            forall|s: Seq<char>|
                s != actor@ ==> #[trigger] final(self).actor(s) == old(self).actor(s),
            final(self).actor(actor@) == queued(old(self).actor(actor@), id),
    {
        let i = self.entry(actor);
        let ghost base = *self;
        proof {
            base.lemma_listed(actor@, i as int);
            base.lemma_bounded(actor@);
        }
        let ghost q = self.actors@[i as int].pending@.push(id);
        self.actors[i].pending.push(id);
        if self.actors[i].pending.len() > PENDING_CAP {
            self.actors[i].pending.remove(0);
            assert(self.actors@[i as int].pending@ =~= q.skip(1));
        }
        assert(self.actors@[i as int]@ =~= queued(old(self).actor(actor@), id));
        proof {
            Room::lemma_updated(base, *self, i as int);
        }
    }

    /// Deliver a directed (or broadcast, `to: None`) message that has been
    /// recorded under the id `id`: queue it for catch-up, then push it to a
    /// live receiver. The emitter is marked awake. The result is what goes out,
    /// if anything does.
    pub fn emit_directed(
        &mut self,
        m: &Recorded,
        id: u64,
        on: bool,
        now_ms: u64,
        now: u64,
    ) -> (r: Option<Push>)
        requires
            old(self).wf(),
        ensures
            final(self).wf(),
            emitted(*old(self), *final(self), *m, id, on, now_ms, now, r),
    {
        self.wake(m.actor.as_str(), now);
        match &m.to {
            Some(target) => {
                self.enqueue(target.as_str(), id);
                let message = RoomMessage {
                    message_id: id,
                    from: m.actor.clone(),
                    text: m.text.clone(),
                };
                self.push_room_message(target.as_str(), message, on, now_ms)
            },
            None => None,
        }
    }

    /// Re-deliver to any actor that went silent past its stall deadline (up to
    /// `MAX_REDELIVERY` times), else give up. The result is what goes out.
    pub fn check_stalls(
        &mut self,
        store: &Vec<RoomMessage>,
        on: bool,
        now_ms: u64,
        now: u64,
    ) -> (r: Vec<Push>)
        requires
            old(self).wf(),
            now <= LATEST,
        ensures
            final(self).wf(),
            forall|s: Seq<char>| #[trigger]
                final(self).actor(s) == stall_checked(old(self).actor(s), store@, on, now_ms, now),
            push_views(r@) == all_stall_pushes(old(self).actors@, store@, on, now_ms, now),
    {
        let ghost o = *self;
        let mut r: Vec<Push> = Vec::new();
        let mut i: usize = 0;
        assert(push_views(r@) =~= all_stall_pushes(o.actors@.take(0), store@, on, now_ms, now));
        while i < self.actors.len()
            invariant
                o.wf(),
                self.wf(),
                now <= LATEST,
                i <= self.actors@.len() == o.actors@.len(),
                forall|k: int|
                    0 <= k < o.actors@.len() ==> #[trigger] self.actors@[k].slug
                        == o.actors@[k].slug,
                forall|k: int|
                    i <= k < o.actors@.len() ==> #[trigger] self.actors@[k] == o.actors@[k],
                forall|k: int|
                    0 <= k < i ==> (#[trigger] self.actors@[k])@ == stall_checked(
                        o.actors@[k]@,
                        store@,
                        on,
                        now_ms,
                        now,
                    ),
                push_views(r@) == all_stall_pushes(
                    o.actors@.take(i as int),
                    store@,
                    on,
                    now_ms,
                    now,
                ),
            decreases self.actors@.len() - i,
        {
            let ghost base = *self;
            proof {
                assert(base.actors@[i as int]@.bounded());
            }
            self.actors[i].check_stall(store, on, now_ms, now, &mut r);
            proof {
                Room::lemma_updated(base, *self, i as int);
                assert(o.actors@.take(i + 1).drop_last() =~= o.actors@.take(i as int));
                assert(o.actors@.take(i + 1).last() == o.actors@[i as int]);
            }
            i = i + 1;
        }
        proof {
            assert(o.actors@.take(i as int) =~= o.actors@);
            let f = *self;
            assert forall|s: Seq<char>| #[trigger]
                f.actor(s) == stall_checked(o.actor(s), store@, on, now_ms, now) by {
                if exists|k: int| o.listed(s, k) {
                    let k = choose|k: int| o.listed(s, k);
                    o.lemma_listed(s, k);
                    assert(f.actors@[k].slug == o.actors@[k].slug);
                    assert(f.listed(s, k));
                    f.lemma_listed(s, k);
                } else {
                    assert forall|k: int| !f.listed(s, k) by {
                        assert(!o.listed(s, k));
                        if 0 <= k < f.actors@.len() {
                            assert(f.actors@[k].slug == o.actors@[k].slug);
                        }
                    }
                }
            }
        }
        r
    }

    /// A connection is gone: drop every receiver that it was.
    pub fn drop_connection(&mut self, conn: u64)
        requires
            old(self).wf(),
        ensures
            final(self).wf(),
            forall|s: Seq<char>| #[trigger]
                final(self).actor(s) == disconnected(old(self).actor(s), conn),
    {
        let ghost o = *self;
        let mut i: usize = 0;
        while i < self.actors.len()
            invariant
                o.wf(),
                self.wf(),
                i <= self.actors@.len() == o.actors@.len(),
                forall|k: int|
                    0 <= k < o.actors@.len() ==> #[trigger] self.actors@[k].slug
                        == o.actors@[k].slug,
                forall|k: int|
                    i <= k < o.actors@.len() ==> #[trigger] self.actors@[k] == o.actors@[k],
                forall|k: int|
                    0 <= k < i ==> (#[trigger] self.actors@[k])@ == (if o.actors@[k]@.conn == Some(
                        conn,
                    ) {
                        ActorState { conn: None, ..o.actors@[k]@ }
                    } else {
                        o.actors@[k]@
                    }),
            decreases self.actors@.len() - i,
        {
            let ghost base = *self;
            proof {
                assert(base.actors@[i as int]@.bounded());
            }
            if let Some(c) = self.actors[i].conn {
                if c == conn {
                    self.actors[i].conn = None;
                    proof {
                        Room::lemma_updated(base, *self, i as int);
                    }
                }
            }
            i = i + 1;
        }
        proof {
            let f = *self;
            assert forall|s: Seq<char>| #[trigger]
                f.actor(s) == (if o.actor(s).conn == Some(conn) {
                    ActorState { conn: None, ..o.actor(s) }
                } else {
                    o.actor(s)
                }) by {
                if exists|k: int| o.listed(s, k) {
                    let k = choose|k: int| o.listed(s, k);
                    o.lemma_listed(s, k);
                    assert(f.actors@[k].slug == o.actors@[k].slug);
                    assert(f.listed(s, k));
                    f.lemma_listed(s, k);
                } else {
                    assert forall|k: int| !f.listed(s, k) by {
                        assert(!o.listed(s, k));
                        if 0 <= k < f.actors@.len() {
                            assert(f.actors@[k].slug == o.actors@[k].slug);
                        }
                    }
                }
            }
        }
    }
}

impl Actor {
    /// Forget the deliveries that are older than the window.
    fn prune(&mut self, now_ms: u64)
        ensures
            final(self)@ == (ActorState { log: pruned(old(self)@.log, now_ms), ..old(self)@ }),
            final(self).slug == old(self).slug,
    {
        let ghost log0 = self.log@;
        while self.log.len() > 0 && now_ms.saturating_sub(self.log[0]) >= DELIVERY_WINDOW_MS
            invariant
                pruned(log0, now_ms) == pruned(self.log@, now_ms),
                *self == (Actor { log: self.log, ..*old(self) }),
            decreases self.log@.len(),
        {
            let ghost here = self.log@;
            self.log.remove(0);
            assert(self.log@ =~= here.drop_first());
        }
        assert(pruned(self.log@, now_ms) == self.log@);
    }

    /// One push to this actor; the result is what goes out.
    fn push(&mut self, message: RoomMessage, on: bool, now_ms: u64) -> (r: Option<Push>)
        requires
            old(self)@.bounded(),
        ensures
            final(self)@.bounded(),
            final(self).slug == old(self).slug,
            final(self)@ == pushed(old(self)@, on, now_ms),
            match push_to(old(self)@, on, now_ms) {
                None => r is None,
                Some(conn) => r matches Some(p) && p.target@ == old(self).slug@ && p.conn == conn
                    && p.message == message,
            },
    {
        let ghost a = self@;
        if !on {
            return None;
        }
        proof {
            lemma_pruned_len(self.log@, now_ms);
        }
        self.prune(now_ms);
        if self.log.len() >= DELIVERY_MAX {
            return None;
        }
        self.log.push(now_ms);
        assert(self@ =~= pushed(a, on, now_ms));
        match self.conn {
            None => None,
            Some(conn) => Some(Push { target: self.slug.clone(), conn, message }),
        }
    }

    /// A receiver of this actor has answered a push.
    fn answer(&mut self, conn: u64, sent: bool, now: u64)
        requires
            old(self)@.bounded(),
            now <= LATEST,
        ensures
            final(self)@.bounded(),
            final(self).slug == old(self).slug,
            final(self)@ == answered(old(self)@, conn, sent, now),
    {
        if sent {
            let retries = match self.watch {
                Some(w) => w.retries,
                None => 0,
            };
            self.watch = Some(Watch { deadline: now + STALL_DEADLINE, retries });
        } else if let Some(c) = self.conn {
            if c == conn {
                self.conn = None;
            }
        }
        assert(self@ =~= answered(old(self)@, conn, sent, now));
    }

    /// Push everything that is pending for this actor; `out` gets what goes
    /// out.
    fn deliver(&mut self, store: &Vec<RoomMessage>, on: bool, now_ms: u64, out: &mut Vec<Push>)
        requires
            old(self)@.bounded(),
        ensures
            final(self)@.bounded(),
            final(self).slug == old(self).slug,
            final(self)@ == caught_up(old(self)@, store@, on, now_ms),
            push_views(final(out)@) == push_views(old(out)@) + catch_up(
                old(self)@,
                old(self).slug@,
                store@,
                on,
                now_ms,
            ),
    {
        let ghost a = self@;
        let ghost slug = self.slug@;
        let ghost had = push_views(out@);
        let mut msgs = resolve(store, &self.pending);
        let ghost all = msgs@;
        let ghost mut n: nat = 0;
        proof {
            assert(all.skip(0) =~= all);
            assert(had + pushes(a, slug, on, now_ms, all.take(0)) =~= had);
        }
        while msgs.len() > 0
            invariant
                self@.bounded(),
                self.slug == old(self).slug,
                slug == self.slug@,
                n <= all.len(),
                msgs@ == all.skip(n as int),
                self@ == after_pushes(a, on, now_ms, n),
                push_views(out@) == had + pushes(a, slug, on, now_ms, all.take(n as int)),
            decreases msgs@.len(),
        {
            let ghost views = push_views(out@);
            let m = msgs.remove(0);
            let ghost msg = m;
            let p = self.push(m, on, now_ms);
            proof {
                assert(msg == all[n as int]);
                assert(all.take(n as int + 1).drop_last() =~= all.take(n as int));
                assert(all.take(n as int + 1).last() == msg);
                assert(msgs@ =~= all.skip(n as int + 1));
            }
            if let Some(x) = p {
                let ghost v = push_view(x);
                out.push(x);
                assert(push_views(out@) =~= views.push(v));
            }
            proof {
                assert(push_views(out@) =~= had + pushes(a, slug, on, now_ms, all.take(n as int + 1)));
                n = n + 1;
            }
        }
        assert(all.take(n as int) =~= all);
    }

    /// Look at this actor's stall watch; `out` gets what goes out.
    fn check_stall(
        &mut self,
        store: &Vec<RoomMessage>,
        on: bool,
        now_ms: u64,
        now: u64,
        out: &mut Vec<Push>,
    )
        requires
            old(self)@.bounded(),
            now <= LATEST,
        ensures
            final(self)@.bounded(),
            final(self).slug == old(self).slug,
            final(self)@ == stall_checked(old(self)@, store@, on, now_ms, now),
            push_views(final(out)@) == push_views(old(out)@) + stall_pushes(
                old(self)@,
                old(self).slug@,
                store@,
                on,
                now_ms,
                now,
            ),
    {
        let ghost a = self@;
        assert(push_views(out@) + Seq::empty() =~= push_views(out@));
        if let Some(w) = self.watch {
            if now >= w.deadline {
                if self.pending.len() == 0 || w.retries >= MAX_REDELIVERY {
                    self.watch = None;
                    assert(self@ =~= (ActorState { watch: None, ..a }));
                    return;
                }
                self.watch = Some(
                    Watch { deadline: now + STALL_DEADLINE, retries: w.retries + 1 },
                );
                assert(self@ =~= bumped(a, now));
                self.deliver(store, on, now_ms, out);
            }
        }
    }
}

/// The record of a message: whose it is, whom it is for, and what it says.
pub fn directed(from: &str, to: Option<&str>, text: &str) -> (r: Recorded)
    ensures
        records(
            r,
            from@,
            match to {
                Some(t) => Some(t@),
                None => None,
            },
            text@,
        ),
{
    Recorded {
        actor: from.to_owned(),
        agent_name: agent_name_from_slug(from),
        to: match to {
            Some(t) => Some(t.to_owned()),
            None => None,
        },
        text: text.to_owned(),
    }
}

proof fn lemma_pruned_len(log: Seq<u64>, now: u64)
    ensures
        pruned(log, now).len() <= log.len(),
    decreases log.len(),
{
    if log.len() > 0 && now - log[0] >= DELIVERY_WINDOW_MS {
        lemma_pruned_len(log.drop_first(), now);
    }
}

} // verus!

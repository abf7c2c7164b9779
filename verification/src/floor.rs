//! The terminal floor: the universal receiver.
//!
//! The fallback for an actor with no receiver of its own: a held message is
//! typed into the actor's pane, but only when the human is not typing there
//! and the actor is idle. The text is typed at once; the Enter follows a beat
//! later, so that the program in the pane does not take it for the end of a
//! paste.

use crate::room::{resolve, resolved, Actor, ActorState, Room, RoomMessage};
use crate::text::same_text;
use std::collections::HashMap;
use vstd::prelude::*;

verus! {

broadcast use vstd::std_specs::hash::group_hash_axioms;

/// An actor silent this long is treated as idle, sitting at its prompt.
pub const PTY_IDLE: u64 = 5_000_000_000;

/// How recently the human must have typed in a pane for it to count as in use.
pub const HUMAN_TYPING_WINDOW: u64 = 3_000_000_000;

/// Gap between typing a message's text and sending its Enter.
pub const PTY_SUBMIT_DELAY: u64 = 120_000_000;

/// Re-check interval for a held message's gate.
pub const PTY_RETRY: u64 = 1_500_000_000;

/// An injection that waits for its Enter.
pub struct FloorSubmit {
    pub deadline: u64,
    pub pane: u64,
    /// How many characters were typed.
    pub typed_chars: usize,
    /// The messages that were typed.
    pub msg_ids: Vec<u64>,
}

/// The pane that a present actor sits in.
pub struct SlugPane {
    pub slug: String,
    pub pane: u64,
}

/// Messages to be typed into a pane.
pub struct FloorJob {
    pub pane: u64,
    pub messages: Vec<RoomMessage>,
}

/// A line to be typed into a pane.
pub struct Injection {
    pub pane: u64,
    pub line: String,
}

/// What the floor remembers.
pub struct Floor {
    /// When the human last typed into each pane.
    pub human: HashMap<u64, u64>,
    /// Injections that wait for their Enter, in the order they were typed.
    pub submits: Vec<FloorSubmit>,
}

/// The pane of the actor `slug`, if it is present in one.
pub open spec fn pane_of(panes: Seq<SlugPane>, slug: Seq<char>) -> Option<u64>
    decreases panes.len(),
{
    if panes.len() == 0 {
        None
    } else if panes[0].slug@ == slug {
        Some(panes[0].pane)
    } else {
        pane_of(panes.drop_first(), slug)
    }
}

fn find_pane(panes: &Vec<SlugPane>, slug: &str) -> (r: Option<u64>)
    ensures
        r == pane_of(panes@, slug@),
{
    let mut i: usize = 0;
    assert(panes@.skip(0) =~= panes@);
    while i < panes.len()
        invariant
            i <= panes@.len(),
            pane_of(panes@, slug@) == pane_of(panes@.skip(i as int), slug@),
        decreases panes.len() - i,
    {
        if same_text(panes[i].slug.as_str(), slug) {
            return Some(panes[i].pane);
        }
        assert(panes@.skip(i as int).drop_first() =~= panes@.skip(i + 1));
        i = i + 1;
    }
    None
}

/// Silent past `PTY_IDLE`, or never active at all.
pub open spec fn idle(a: ActorState, now: u64) -> bool {
    a.last_activity matches Some(t) ==> now - t > PTY_IDLE
}

/// The human is typing in this pane: it is the active one of the focused
/// window, and it has seen input within `HUMAN_TYPING_WINDOW`. Watching
/// without typing does not count.
pub open spec fn human_at(
    human: Map<u64, u64>,
    focused: bool,
    active_tab: u64,
    pane: u64,
    now: u64,
) -> bool {
    &&& focused
    &&& active_tab == pane
    &&& human.contains_key(pane)
    &&& now - human[pane] < HUMAN_TYPING_WINDOW
}

/// The circumstances of a delivery pass.
pub struct Surroundings {
    /// Whether the window has the keyboard.
    pub focused: bool,
    /// The tab that keystrokes go to.
    pub active_tab: u64,
    pub now: u64,
}

/// A message waits for this actor, and only the floor can deliver it.
pub open spec fn floor_waits(a: ActorState, pane: Option<u64>) -> bool {
    a.pending.len() > 0 && a.conn is None && pane is Some
}

/// The floor's gate is open for this actor.
pub open spec fn floor_open(
    a: ActorState,
    pane: Option<u64>,
    store: Seq<RoomMessage>,
    human: Map<u64, u64>,
    s: Surroundings,
) -> bool {
    &&& floor_waits(a, pane)
    &&& !human_at(human, s.focused, s.active_tab, pane->0, s.now)
    &&& idle(a, s.now)
    &&& resolved(store, a.pending).len() > 0
}

/// An actor whose messages have been typed in: nothing is pending, nothing is
/// watched.
pub open spec fn typed_in(a: ActorState) -> ActorState {
    ActorState { pending: Seq::empty(), watch: None, ..a }
}

/// A job as a value.
pub open spec fn job_view(j: FloorJob) -> (u64, Seq<RoomMessage>) {
    (j.pane, j.messages@)
}

/// The jobs of those of `actors` whose gate is open, one each, in their order.
pub open spec fn jobs_for(
    actors: Seq<Actor>,
    panes: Seq<SlugPane>,
    store: Seq<RoomMessage>,
    human: Map<u64, u64>,
    s: Surroundings,
) -> Seq<(u64, Seq<RoomMessage>)>
    decreases actors.len(),
{
    if actors.len() == 0 {
        Seq::empty()
    } else {
        let before = jobs_for(actors.drop_last(), panes, store, human, s);
        let a = actors.last();
        let pane = pane_of(panes, a.slug@);
        if floor_open(a@, pane, store, human, s) {
            before.push((pane->0, resolved(store, a@.pending)))
        } else {
            before
        }
    }
}

impl Floor {
    pub fn new() -> (f: Self)
        ensures
            f.human@ == Map::<u64, u64>::empty(),
            f.submits@.len() == 0,
    {
        Floor { human: HashMap::new(), submits: Vec::new() }
    }

    /// The human has typed into a pane.
    pub fn note_human_input(&mut self, pane: u64, now: u64)
        ensures
            final(self).human@ == old(self).human@.insert(pane, now),
            final(self).submits == old(self).submits,
    {
        self.human.insert(pane, now);
    }

    pub fn human_at_pane(&self, s: &Surroundings, pane: u64) -> (r: bool)
        ensures
            r == human_at(self.human@, s.focused, s.active_tab, pane, s.now),
    {
        if !(s.focused && s.active_tab == pane) {
            return false;
        }
        match self.human.get(&pane) {
            Some(t) => s.now < *t || s.now - *t < HUMAN_TYPING_WINDOW,
            None => false,
        }
    }

    /// The injections that are due at `now`.
    pub open spec fn due(submits: Seq<FloorSubmit>, now: u64) -> Seq<u64>
        decreases submits.len(),
    {
        if submits.len() == 0 {
            Seq::empty()
        } else {
            let before = Floor::due(submits.drop_last(), now);
            if submits.last().deadline <= now {
                before.push(submits.last().pane)
            } else {
                before
            }
        }
    }

    /// The injections that are not due yet at `now`.
    pub open spec fn waiting(submits: Seq<FloorSubmit>, now: u64) -> Seq<FloorSubmit>
        decreases submits.len(),
    {
        if submits.len() == 0 {
            Seq::empty()
        } else {
            let before = Floor::waiting(submits.drop_last(), now);
            if submits.last().deadline <= now {
                before
            } else {
                before.push(submits.last())
            }
        }
    }

    /// Take out the injections whose Enter is due; the panes are returned, in
    /// the order their lines were typed.
    pub fn flush_pty_submits(&mut self, now: u64) -> (panes: Vec<u64>)
        ensures
            panes@ == Floor::due(old(self).submits@, now),
            final(self).submits@ == Floor::waiting(old(self).submits@, now),
            final(self).human == old(self).human,
    {
        let ghost all = self.submits@;
        let mut panes: Vec<u64> = Vec::new();
        let mut kept: Vec<FloorSubmit> = Vec::new();
        let mut todo: Vec<FloorSubmit> = Vec::new();
        std::mem::swap(&mut todo, &mut self.submits);
        let ghost mut n: int = 0;
        assert(all.skip(0) =~= all);
        while todo.len() > 0
            invariant
                0 <= n <= all.len(),
                todo@ == all.skip(n),
                panes@ == Floor::due(all.take(n), now),
                kept@ == Floor::waiting(all.take(n), now),
                self.human == old(self).human,
            decreases todo@.len(),
        {
            let s = todo.remove(0);
            proof {
                assert(s == all[n]);
                assert(all.take(n + 1).drop_last() =~= all.take(n));
                assert(all.take(n + 1).last() == s);
                assert(todo@ =~= all.skip(n + 1));
                n = n + 1;
            }
            if s.deadline <= now {
                panes.push(s.pane);
            } else {
                kept.push(s);
            }
        }
        assert(all.take(n) =~= all);
        self.submits = kept;
        panes
    }
}

impl Room {
    /// Any pending message bound for a paned actor with no receiver of its own?
    /// Drives the retry tick.
    pub fn has_pending_pty_work(&self, panes: &Vec<SlugPane>) -> (r: bool)
        requires
            self.wf(),
        ensures
            r == exists|i: int|
                0 <= i < self.actors@.len() && floor_waits(
                    (#[trigger] self.actors@[i])@,
                    pane_of(panes@, self.actors@[i].slug@),
                ),
    {
        let mut i: usize = 0;
        while i < self.actors.len()
            invariant
                i <= self.actors@.len(),
                forall|k: int|
                    0 <= k < i ==> !floor_waits(
                        (#[trigger] self.actors@[k])@,
                        pane_of(panes@, self.actors@[k].slug@),
                    ),
            decreases self.actors.len() - i,
        {
            let a = &self.actors[i];
            if a.pending.len() > 0 && a.conn.is_none() && find_pane(
                panes,
                a.slug.as_str(),
            ).is_some() {
                return true;
            }
            i = i + 1;
        }
        false
    }

    /// Take what the floor can deliver now: for each actor whose gate is open,
    /// its messages, which count as consumed from here on.
    pub fn take_floor_jobs(
        &mut self,
        panes: &Vec<SlugPane>,
        store: &Vec<RoomMessage>,
        floor: &Floor,
        s: &Surroundings,
    ) -> (jobs: Vec<FloorJob>)
        requires
            old(self).wf(),
        ensures
            final(self).wf(),
            jobs@.map_values(|j: FloorJob| job_view(j)) == jobs_for(
                old(self).actors@,
                panes@,
                store@,
                floor.human@,
                *s,
            ),
            forall|slug: Seq<char>| #[trigger]
                final(self).actor(slug) == (if floor_open(
                    old(self).actor(slug),
                    pane_of(panes@, slug),
                    store@,
                    floor.human@,
                    *s,
                ) {
                    typed_in(old(self).actor(slug))
                } else {
                    old(self).actor(slug)
                }),
    {
        let ghost o = *self;
        let mut jobs: Vec<FloorJob> = Vec::new();
        let mut i: usize = 0;
        assert(jobs@.map_values(|j: FloorJob| job_view(j)) =~= jobs_for(
            o.actors@.take(0),
            panes@,
            store@,
            floor.human@,
            *s,
        ));
        while i < self.actors.len()
            invariant
                o.wf(),
                self.wf(),
                i <= self.actors@.len() == o.actors@.len(),
                forall|k: int|
                    0 <= k < o.actors@.len() ==> #[trigger] self.actors@[k].slug
                        == o.actors@[k].slug,
                forall|k: int|
                    i <= k < o.actors@.len() ==> #[trigger] self.actors@[k] == o.actors@[k],
                forall|k: int|
                    0 <= k < i ==> (#[trigger] self.actors@[k])@ == (if floor_open(
                        o.actors@[k]@,
                        pane_of(panes@, o.actors@[k].slug@),
                        store@,
                        floor.human@,
                        *s,
                    ) {
                        typed_in(o.actors@[k]@)
                    } else {
                        o.actors@[k]@
                    }),
                jobs@.map_values(|j: FloorJob| job_view(j)) == jobs_for(
                    o.actors@.take(i as int),
                    panes@,
                    store@,
                    floor.human@,
                    *s,
                ),
            decreases self.actors@.len() - i,
        {
            let ghost base = *self;
            let ghost had = jobs@.map_values(|j: FloorJob| job_view(j));
            let ghost a = o.actors@[i as int];
            let ghost pane_g = pane_of(panes@, a.slug@);
            proof {
                assert(base.actors@[i as int]@.bounded());
                assert(o.actors@.take(i + 1).drop_last() =~= o.actors@.take(i as int));
                assert(o.actors@.take(i + 1).last() == a);
            }
            if self.actors[i].pending.len() > 0 && self.actors[i].conn.is_none() {
                if let Some(pane) = find_pane(panes, self.actors[i].slug.as_str()) {
                    let quiet = match self.actors[i].last_activity {
                        Some(t) => s.now >= t && s.now - t > PTY_IDLE,
                        None => true,
                    };
                    if !floor.human_at_pane(s, pane) && quiet {
                        let messages = resolve(store, &self.actors[i].pending);
                        if messages.len() > 0 {
                            let ghost msgs = messages@;
                            jobs.push(FloorJob { pane, messages });
                            assert(jobs@.map_values(|j: FloorJob| job_view(j)) =~= had.push(
                                (pane, msgs),
                            ));
                            self.actors[i].pending = Vec::new();
                            self.actors[i].watch = None;
                            assert(self.actors@[i as int]@ =~= typed_in(a@));
                            proof {
                                Room::lemma_updated(base, *self, i as int);
                            }
                        }
                    }
                }
            }
            i = i + 1;
        }
        proof {
            assert(o.actors@.take(o.actors@.len() as int) =~= o.actors@);
            let f = *self;
            assert forall|slug: Seq<char>| #[trigger]
                f.actor(slug) == (if floor_open(
                    o.actor(slug),
                    pane_of(panes@, slug),
                    store@,
                    floor.human@,
                    *s,
                ) {
                    typed_in(o.actor(slug))
                } else {
                    o.actor(slug)
                }) by {
                if exists|k: int| o.listed(slug, k) {
                    let k = choose|k: int| o.listed(slug, k);
                    o.lemma_listed(slug, k);
                    assert(f.actors@[k].slug == o.actors@[k].slug);
                    assert(f.listed(slug, k));
                    f.lemma_listed(slug, k);
                } else {
                    assert forall|k: int| !f.listed(slug, k) by {
                        assert(!o.listed(slug, k));
                        if 0 <= k < f.actors@.len() {
                            assert(f.actors@[k].slug == o.actors@[k].slug);
                        }
                    }
                }
            }
        }
        jobs
    }
}

/// A text on one line: line breaks become spaces.
pub open spec fn one_line(s: Seq<char>) -> Seq<char> {
    s.map_values(
        |c: char|
            if c == '\n' || c == '\r' {
                ' '
            } else {
                c
            },
    )
}

/// Messages, each with its sender, joined into one text.
pub open spec fn joined(ms: Seq<RoomMessage>) -> Seq<char>
    decreases ms.len(),
{
    if ms.len() == 0 {
        Seq::empty()
    } else {
        let part = "["@ + ms.last().from@ + "] "@ + ms.last().text@;
        if ms.len() == 1 {
            part
        } else {
            joined(ms.drop_last()) + "  ·  "@ + part
        }
    }
}

/// The line that held messages are typed as: one line for all of them, so that
/// a backlog does not make for as many turns.
pub open spec fn floor_line(ms: Seq<RoomMessage>) -> Seq<char> {
    one_line("[terminite room] "@ + joined(ms))
}

/// The text on one line.
pub fn flatten(s: &str) -> (r: String)
    ensures
        r@ == one_line(s@),
{
    let v = crate::text::chars_of(s);
    let mut r = String::new();
    let mut i: usize = 0;
    while i < v.len()
        invariant
            v@ == s@,
            i <= v@.len(),
            r@ == one_line(s@).take(i as int),
        decreases v.len() - i,
    {
        let c = v[i];
        r.push(
            if c == '\n' || c == '\r' {
                ' '
            } else {
                c
            },
        );
        i = i + 1;
        assert(r@ =~= one_line(s@).take(i as int));
    }
    assert(r@ =~= one_line(s@));
    r
}

/// The line that held messages are typed as.
pub fn compose_line(ms: &Vec<RoomMessage>) -> (line: String)
    ensures
        line@ == floor_line(ms@),
{
    let mut s = "[terminite room] ".to_owned();
    let ghost head = s@;
    let mut i: usize = 0;
    assert(joined(ms@.take(0)) =~= Seq::<char>::empty());
    assert(s@ =~= head + joined(ms@.take(0)));
    while i < ms.len()
        invariant
            i <= ms@.len(),
            s@ == head + joined(ms@.take(i as int)),
        decreases ms.len() - i,
    {
        let ghost before = s@;
        if i > 0 {
            s.append("  ·  ");
        }
        s.append("[");
        s.append(ms[i].from.as_str());
        s.append("] ");
        s.append(ms[i].text.as_str());
        i = i + 1;
        proof {
            let t = ms@.take(i as int);
            assert(t.drop_last() =~= ms@.take(i - 1));
            assert(t.last() == ms@[i - 1]);
            assert(s@ =~= head + joined(t));
        }
    }
    assert(ms@.take(ms@.len() as int) =~= ms@);
    flatten(s.as_str())
}

/// A line that is typed holds no line break, so that its Enter is the only one.
pub proof fn law_floor_line_is_one_line(ms: Seq<RoomMessage>, i: int)
    requires
        0 <= i < floor_line(ms).len(),
    ensures
        floor_line(ms)[i] != '\n',
        floor_line(ms)[i] != '\r',
{
}

/// Whoever the floor delivers to has nothing pending any more: no message is
/// typed twice.
pub proof fn law_typed_once(
    a: ActorState,
    pane: Option<u64>,
    store: Seq<RoomMessage>,
    human: Map<u64, u64>,
    s: Surroundings,
)
    ensures
        !floor_open(typed_in(a), pane, store, human, s),
{
}

/// While the human types in a pane, nothing is typed into it.
pub proof fn law_human_is_not_interrupted(
    a: ActorState,
    pane: u64,
    store: Seq<RoomMessage>,
    human: Map<u64, u64>,
    s: Surroundings,
)
    requires
        s.focused,
        s.active_tab == pane,
        human.contains_key(pane),
        s.now - human[pane] < HUMAN_TYPING_WINDOW,
    ensures
        !floor_open(a, Some(pane), store, human, s),
{
}

} // verus!

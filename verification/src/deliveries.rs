//! The window's share in the room: deliveries that are due, lines to be typed,
//! and the next moment at which something is.

use crate::comms::{freed_told, notify_freed_waiters};
use crate::floor::{
    compose_line, floor_line, floor_open, floor_waits, job_view, jobs_for, pane_of, typed_in, Floor,
    FloorJob, FloorSubmit, Injection, SlugPane, Surroundings, PTY_RETRY, PTY_SUBMIT_DELAY,
};
use crate::renderer::Renderer;
use crate::room::{
    all_stall_pushes, answered, emitted, push_views, stall_checked, Push, Recorded, Room, RoomMessage,
    LATEST, MS,
};
use crate::tab::{Tab, TabId};
use crate::tree::PaneNode;
use vstd::prelude::*;

verus! {

/// The lines that jobs are typed as, for those whose pane is still there.
pub open spec fn lines_for(jobs: Seq<(u64, Seq<RoomMessage>)>, t: PaneNode) -> Seq<
    (u64, Seq<char>),
>
    decreases jobs.len(),
{
    if jobs.len() == 0 {
        Seq::empty()
    } else {
        let rest = lines_for(jobs.drop_last(), t);
        let j = jobs.last();
        if t.has_tab(TabId(j.0)) {
            rest.push((j.0, floor_line(j.1)))
        } else {
            rest
        }
    }
}

/// The ids of messages.
pub open spec fn ids_in(ms: Seq<RoomMessage>) -> Seq<u64> {
    ms.map_values(|m: RoomMessage| m.message_id)
}

/// What is kept of an injection until its Enter is sent.
pub struct SubmitState {
    pub deadline: u64,
    pub pane: u64,
    pub typed_chars: int,
    pub msg_ids: Seq<u64>,
}

/// A waiting Enter, as a value.
pub open spec fn submit_view(s: FloorSubmit) -> SubmitState {
    SubmitState {
        deadline: s.deadline,
        pane: s.pane,
        typed_chars: s.typed_chars as int,
        msg_ids: s.msg_ids@,
    }
}

/// The Enters that jobs leave waiting, for those whose pane is still there.
pub open spec fn submits_for(
    jobs: Seq<(u64, Seq<RoomMessage>)>,
    t: PaneNode,
    now: u64,
) -> Seq<SubmitState>
    decreases jobs.len(),
{
    if jobs.len() == 0 {
        Seq::empty()
    } else {
        let rest = submits_for(jobs.drop_last(), t, now);
        let j = jobs.last();
        if t.has_tab(TabId(j.0)) {
            rest.push(
                SubmitState {
                    deadline: (now + PTY_SUBMIT_DELAY) as u64,
                    pane: j.0,
                    typed_chars: floor_line(j.1).len() as int,
                    msg_ids: ids_in(j.1),
                },
            )
        } else {
            rest
        }
    }
}

/// An injection, as a value.
pub open spec fn line_view(i: Injection) -> (u64, Seq<char>) {
    (i.pane, i.line@)
}

fn message_ids(ms: &Vec<RoomMessage>) -> (r: Vec<u64>)
    ensures
        r@ == ids_in(ms@),
{
    let mut r: Vec<u64> = Vec::new();
    let mut i: usize = 0;
    while i < ms.len()
        invariant
            i <= ms@.len(),
            r@.len() == i,
            forall|k: int| 0 <= k < i ==> #[trigger] r@[k] == ms@[k].message_id,
        decreases ms.len() - i,
    {
        r.push(ms[i].message_id);
        i = i + 1;
    }
    assert(r@ =~= ids_in(ms@));
    r
}

impl Renderer {
    /// The circumstances of a delivery pass at `now`.
    pub open spec fn surroundings(self, now: u64) -> Surroundings {
        Surroundings { focused: self.focused, active_tab: self.ws.active_tab().id.0, now }
    }

    /// What the floor can deliver at `now`.
    pub open spec fn floor_jobs(self, panes: Seq<SlugPane>, store: Seq<RoomMessage>, now: u64) -> Seq<
        (u64, Seq<RoomMessage>),
    > {
        if self.config.comms_delivery {
            jobs_for(self.room.actors@, panes, store, self.floor.human@, self.surroundings(now))
        } else {
            Seq::empty()
        }
    }

    /// What the floor types, and what that leaves.
    pub open spec fn floor_typed(
        self,
        before: Renderer,
        panes: &Vec<SlugPane>,
        store: &Vec<RoomMessage>,
        now: u64,
        r: Vec<Injection>,
    ) -> bool {
        let jobs = before.floor_jobs(panes@, store@, now);
        let t = before.ws.tree();
        &&& r@.map_values(|i: Injection| line_view(i)) == lines_for(jobs, t)
        &&& self == (Renderer {
            room: self.room,
            floor: self.floor,
            ..before
        })
        &&& self.floor.human == before.floor.human
        &&& self.floor.submits@.map_values(|s: FloorSubmit| submit_view(s))
            == before.floor.submits@.map_values(|s: FloorSubmit| submit_view(s))
            + submits_for(jobs, t, now)
        &&& forall|slug: Seq<char>| #[trigger]
            self.room.actor(slug) == (if before.config.comms_delivery
                && floor_open(
                before.room.actor(slug),
                pane_of(panes@, slug),
                store@,
                before.floor.human@,
                before.surroundings(now),
            ) {
                typed_in(before.room.actor(slug))
            } else {
                before.room.actor(slug)
            })
    }

    /// Deliver what only the floor can deliver: for each actor without a
    /// receiver whose gate is open, the messages held for it are typed into
    /// its pane as one line, and count as consumed. The Enter follows a beat
    /// later.
    pub fn try_pty_deliveries(
        &mut self,
        panes: &Vec<SlugPane>,
        store: &Vec<RoomMessage>,
        now: u64,
    ) -> (r: Vec<Injection>)
        requires
            old(self).wf(),
            now <= LATEST,
        ensures
            final(self).wf(),
            final(self).floor_typed(*old(self), panes, store, now, r),
    {
        let mut r: Vec<Injection> = Vec::new();
        let ghost before = *self;
        let ghost t = self.ws.tree();
        let ghost had = self.floor.submits@.map_values(|s: FloorSubmit| submit_view(s));
        if !self.config.comms_delivery {
            assert(r@.map_values(|i: Injection| line_view(i)) =~= Seq::empty());
            assert(had + Seq::<SubmitState>::empty() =~= had);
            return r;
        }
        let s = Surroundings {
            focused: self.focused,
            active_tab: self.ws.active_tab_ref().id.0,
            now,
        };
        let jobs = self.room.take_floor_jobs(panes, store, &self.floor, &s);
        let ghost js = jobs@.map_values(|j: FloorJob| job_view(j));
        let ghost mid = *self;
        let mut i: usize = 0;
        proof {
            assert(js.take(0) =~= Seq::empty());
            assert(r@.map_values(|i: Injection| line_view(i)) =~= Seq::empty());
            assert(had + Seq::<SubmitState>::empty() =~= had);
        }
        while i < jobs.len()
            invariant
                i <= jobs@.len(),
                now <= LATEST,
                js == jobs@.map_values(|j: FloorJob| job_view(j)),
                self.wf(),
                t == self.ws.tree(),
                *self == (Renderer { floor: self.floor, ..mid }),
                self.floor.human == mid.floor.human,
                r@.map_values(|i: Injection| line_view(i)) == lines_for(js.take(i as int), t),
                self.floor.submits@.map_values(|s: FloorSubmit| submit_view(s)) == had
                    + submits_for(js.take(i as int), t, now),
            decreases jobs.len() - i,
        {
            let ghost lines = r@.map_values(|i: Injection| line_view(i));
            let ghost subs = self.floor.submits@.map_values(|s: FloorSubmit| submit_view(s));
            let job = &jobs[i];
            proof {
                assert(js.take(i + 1).drop_last() =~= js.take(i as int));
                assert(js.take(i + 1).last() == job_view(jobs@[i as int]));
            }
            if self.ws.root_ref().holds_tab(TabId(job.pane)) {
                let line = compose_line(&job.messages);
                let typed_chars = line.as_str().unicode_len();
                let ghost text = line@;
                self.floor.submits.push(
                    FloorSubmit {
                        deadline: now + PTY_SUBMIT_DELAY,
                        pane: job.pane,
                        typed_chars,
                        msg_ids: message_ids(&job.messages),
                    },
                );
                r.push(Injection { pane: job.pane, line });
                proof {
                    assert(r@.map_values(|i: Injection| line_view(i)) =~= lines.push(
                        (job.pane, text),
                    ));
                    assert(self.floor.submits@.map_values(|s: FloorSubmit| submit_view(s))
                        =~= subs.push(submit_view(self.floor.submits@.last())));
                    assert(self.floor.submits@.map_values(|s: FloorSubmit| submit_view(s)) =~= had
                        + submits_for(js.take(i + 1), t, now));
                }
            }
            i = i + 1;
        }
        assert(js.take(js.len() as int) =~= js);
        r
    }

    /// The panes that get their Enter, and those that still wait for it.
    pub open spec fn enters_sent(self, before: Renderer, now: u64, panes: Vec<u64>) -> bool {
        &&& self == (Renderer { floor: self.floor, ..before })
        &&& panes@ == Floor::due(before.floor.submits@, now)
        &&& self.floor.submits@ == Floor::waiting(before.floor.submits@, now)
        &&& self.floor.human == before.floor.human
    }

    /// The panes whose Enter is due.
    pub fn flush_pty_submits(&mut self, now: u64) -> (panes: Vec<u64>)
        requires
            old(self).wf(),
        ensures
            final(self).wf(),
            final(self).enters_sent(*old(self), now, panes),
    {
        self.floor.flush_pty_submits(now)
    }

    /// A message waits that only the floor can deliver.
    pub open spec fn floor_work(self, panes: Seq<SlugPane>) -> bool {
        exists|i: int|
            0 <= i < self.room.actors@.len() && floor_waits(
                (#[trigger] self.room.actors@[i])@,
                pane_of(panes, self.room.actors@[i].slug@),
            )
    }

    /// Whether a message waits that only the floor can deliver.
    pub fn has_pending_pty_work(&self, panes: &Vec<SlugPane>) -> (r: bool)
        requires
            self.wf(),
        ensures
            r == self.floor_work(panes@),
    {
        self.room.has_pending_pty_work(panes)
    }

    /// What a look for stalled receivers changes and sends.
    pub open spec fn stalls_checked(
        self,
        before: Renderer,
        store: &Vec<RoomMessage>,
        now_ms: u64,
        now: u64,
        r: Vec<Push>,
    ) -> bool {
        &&& self == (Renderer { room: self.room, ..before })
        &&& ({
            let on = before.config.comms_delivery;
            &&& forall|s: Seq<char>| #[trigger]
                self.room.actor(s) == stall_checked(
                    before.room.actor(s),
                    store@,
                    on,
                    now_ms,
                    now,
                )
            &&& push_views(r@) == all_stall_pushes(
                before.room.actors@,
                store@,
                on,
                now_ms,
                now,
            )
        })
    }

    /// Re-deliver to any actor that went silent for too long, a bounded number
    /// of times. The result is what goes out.
    pub fn check_stalls(&mut self, store: &Vec<RoomMessage>, now_ms: u64, now: u64) -> (r: Vec<
        Push,
    >)
        requires
            old(self).wf(),
            now <= LATEST,
        ensures
            final(self).wf(),
            final(self).stalls_checked(*old(self), store, now_ms, now, r),
    {
        let on = self.config.comms_delivery;
        self.room.check_stalls(store, on, now_ms, now)
    }

    /// A message has been recorded under the id `id`: deliver it. The result is
    /// what goes out, if anything does.
    pub fn message_recorded(&mut self, m: &Recorded, id: u64, now_ms: u64, now: u64) -> (r: Option<
        Push,
    >)
        requires
            old(self).wf(),
        ensures
            final(self).wf(),
            *final(self) == (Renderer { room: final(self).room, ..*old(self) }),
            emitted(
                old(self).room,
                final(self).room,
                *m,
                id,
                old(self).config.comms_delivery,
                now_ms,
                now,
                r,
            ),
    {
        let on = self.config.comms_delivery;
        self.room.emit_directed(m, id, on, now_ms, now)
    }

    /// The next push of a batch that goes out. One whose receiver has been
    /// dropped meanwhile does not.
    pub fn next_push(&self, batch: &mut Vec<Push>) -> (r: Option<Push>)
        requires
            self.wf(),
        ensures
            ({
                let n = self.room.first_due(old(batch)@);
                if n < old(batch)@.len() {
                    r == Some(old(batch)@[n]) && final(batch)@ == old(batch)@.skip(n + 1)
                } else {
                    r is None && final(batch)@.len() == 0
                }
            }),
    {
        self.room.next_push(batch)
    }

    /// What the outcome of a push changes.
    pub open spec fn push_settled(
        self,
        before: Renderer,
        target: &str,
        conn: u64,
        sent: bool,
        now: u64,
    ) -> bool {
        &&& self == (Renderer { room: self.room, ..before })
        &&& (forall|s: Seq<char>|
            s != target@ ==> #[trigger] self.room.actor(s) == before.room.actor(s))
        &&& self.room.actor(target@) == answered(
            before.room.actor(target@),
            conn,
            sent,
            now,
        )
    }

    /// A push has been handed to the receiver `conn` of `target`; `sent` says
    /// whether it was taken.
    pub fn push_answered(&mut self, target: &str, conn: u64, sent: bool, now: u64)
        requires
            old(self).wf(),
            now <= LATEST,
        ensures
            final(self).wf(),
            final(self).push_settled(*old(self), target, conn, sent, now),
    {
        self.room.push_answered(target, conn, sent, now);
    }

    /// Who is told of the files that are free, and who waits on.
    pub open spec fn waiters_told(
        self,
        before: Renderer,
        held: &Vec<String>,
        r: Vec<Recorded>,
    ) -> bool {
        &&& self == (Renderer { file_waiters: self.file_waiters, ..before })
        &&& freed_told(before.file_waiters, self.file_waiters, held@, r@)
    }

    /// What there is to tell those who wait for a path that is now free, in
    /// order; `held` are the paths that somebody holds.
    pub fn notify_freed_waiters(&mut self, held: &Vec<String>) -> (r: Vec<Recorded>)
        requires
            old(self).wf(),
        ensures
            final(self).wf(),
            final(self).waiters_told(*old(self), held, r),
    {
        notify_freed_waiters(&mut self.file_waiters, held)
    }
}

/// `r` is the earliest of `s`.
pub open spec fn earliest(r: Option<u64>, s: Set<u64>) -> bool {
    match r {
        Some(t) => s.contains(t) && forall|u: u64| #[trigger] s.contains(u) ==> t <= u,
        None => forall|u: u64| !(#[trigger] s.contains(u)),
    }
}

/// The moment in `o`, if there is one.
pub open spec fn moment(o: Option<u64>) -> Set<u64> {
    Set::new(|t: u64| o == Some(t))
}

fn sooner(a: Option<u64>, b: Option<u64>) -> (r: Option<u64>)
    ensures
        r == match (a, b) {
            (Some(x), Some(y)) => if x <= y {
                Some(x)
            } else {
                Some(y)
            },
            (Some(x), None) => Some(x),
            (None, y) => y,
        },
{
    match (a, b) {
        (Some(x), Some(y)) => if x <= y {
            Some(x)
        } else {
            Some(y)
        },
        (Some(x), None) => Some(x),
        (None, y) => y,
    }
}

/// The moments at which animations go on to their next frame.
pub open spec fn frame_moments(tabs: Seq<Tab>, now: u64) -> Set<u64> {
    Set::new(
        |t: u64|
            exists|i: int|
                0 <= i < tabs.len() && #[trigger] frame_at(tabs[i], now, t),
    )
}

/// The animation of a tab goes on to its next frame at `t`.
pub open spec fn frame_at(tab: Tab, now: u64, t: u64) -> bool {
    tab.animation matches Some(a) && a.total_ms > 0 && a.frames@.len() > 0 && t == now + a.wait(
        now,
    ) * MS
}

/// The moments at which a silent actor counts as stalled.
pub open spec fn stall_moments(room: Room) -> Set<u64> {
    Set::new(
        |t: u64|
            exists|i: int|
                0 <= i < room.actors@.len() && ((#[trigger] room.actors@[i]).watch matches Some(w)
                    && w.deadline == t),
    )
}

/// The moments at which an Enter is due.
pub open spec fn submit_moments(submits: Seq<FloorSubmit>) -> Set<u64> {
    Set::new(
        |t: u64|
            exists|i: int| 0 <= i < submits.len() && (#[trigger] submits[i]).deadline == t,
    )
}

impl Renderer {
    /// The moments at which the main loop has something to do.
    pub open spec fn moments(self, panes: Seq<SlugPane>, now: u64) -> Set<u64> {
        moment(self.bell_flash_until).union(moment(self.next_blink_deadline)).union(
            moment(self.next_autoscroll_deadline),
        ).union(moment(self.next_surface_retry_deadline)).union(
            frame_moments(self.ws.all(), now),
        ).union(stall_moments(self.room)).union(
            moment(
                if self.floor_work(panes) {
                    Some((now + PTY_RETRY) as u64)
                } else {
                    None
                },
            ),
        ).union(submit_moments(self.floor.submits@))
    }

    /// The earliest moment the main loop should wake at; `None` to sleep until
    /// the next event.
    pub fn next_wakeup(&self, panes: &Vec<SlugPane>, now: u64) -> (r: Option<u64>)
        requires
            self.wf(),
            now <= LATEST,
        ensures
            earliest(r, self.moments(panes@, now)),
    {
        let frames = self.next_frame(now);
        let stall = self.next_stall();
        let tick = if self.room.has_pending_pty_work(panes) {
            Some(now + PTY_RETRY)
        } else {
            None
        };
        let submit = self.next_submit();
        let a = sooner(self.bell_flash_until, self.next_blink_deadline);
        let b = sooner(a, self.next_autoscroll_deadline);
        let c = sooner(b, self.next_surface_retry_deadline);
        let d = sooner(c, frames);
        let e = sooner(d, stall);
        let f = sooner(e, tick);
        let g = sooner(f, submit);
        g
    }

    fn next_frame(&self, now: u64) -> (r: Option<u64>)
        requires
            self.wf(),
            now <= LATEST,
        ensures
            earliest(r, frame_moments(self.ws.all(), now)),
    {
        let ghost all = self.ws.all();
        let mut tabs: Vec<&Tab> = Vec::new();
        let ghost n = tabs@.len();
        self.ws.root_ref().all_tabs(&mut tabs);
        assert forall|k: int| 0 <= k < all.len() implies *(#[trigger] tabs@[k]) == all[k] by {
            assert(*tabs@[n + k] == all[k]);
        }
        let mut r: Option<u64> = None;
        let mut i: usize = 0;
        while i < tabs.len()
            invariant
                i <= tabs@.len(),
                now <= LATEST,
                self.wf(),
                all == self.ws.all(),
                tabs@.len() == all.len(),
                forall|k: int| 0 <= k < all.len() ==> *(#[trigger] tabs@[k]) == all[k],
                r matches Some(t) ==> exists|k: int|
                    0 <= k < i && #[trigger] frame_at(all[k], now, t),
                forall|k: int, t: u64|
                    0 <= k < i && #[trigger] frame_at(all[k], now, t) ==> (r matches Some(u) && u
                        <= t),
            decreases tabs.len() - i,
        {
            let ghost was = r;
            assert(all[i as int].wf());
            if let Some(a) = &tabs[i].animation {
                let next = a.next_wakeup(now);
                proof {
                    if let Some(t) = next {
                        assert(frame_at(all[i as int], now, t));
                    }
                }
                r = sooner(r, next);
            }
            i = i + 1;
        }
        r
    }

    fn next_stall(&self) -> (r: Option<u64>)
        ensures
            earliest(r, stall_moments(self.room)),
    {
        let ghost actors = self.room.actors@;
        let mut r: Option<u64> = None;
        let mut i: usize = 0;
        while i < self.room.actors.len()
            invariant
                i <= self.room.actors@.len(),
                actors == self.room.actors@,
                r matches Some(t) ==> exists|k: int|
                    0 <= k < i && ((#[trigger] actors[k]).watch matches Some(w) && w.deadline
                        == t),
                forall|k: int|
                    0 <= k < i ==> ((#[trigger] actors[k]).watch matches Some(w) ==> (
                    r matches Some(u) && u <= w.deadline)),
            decreases self.room.actors.len() - i,
        {
            let next = match self.room.actors[i].watch {
                Some(w) => Some(w.deadline),
                None => None,
            };
            assert(actors[i as int] == self.room.actors@[i as int]);
            r = sooner(r, next);
            i = i + 1;
        }
        r
    }

    fn next_submit(&self) -> (r: Option<u64>)
        ensures
            earliest(r, submit_moments(self.floor.submits@)),
    {
        let ghost subs = self.floor.submits@;
        let mut r: Option<u64> = None;
        let mut i: usize = 0;
        while i < self.floor.submits.len()
            invariant
                i <= self.floor.submits@.len(),
                subs == self.floor.submits@,
                r matches Some(t) ==> exists|k: int|
                    0 <= k < i && (#[trigger] subs[k]).deadline == t,
                forall|k: int|
                    0 <= k < i ==> (r matches Some(u) && u <= (#[trigger] subs[k]).deadline),
            decreases self.floor.submits.len() - i,
        {
            assert(subs[i as int] == self.floor.submits@[i as int]);
            r = sooner(r, Some(self.floor.submits[i].deadline));
            i = i + 1;
        }
        r
    }
}

} // verus!

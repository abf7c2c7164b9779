//! What happens when: the blink of the cursor, the flash of the bell, the time
//! of a frame, and the moment at which the window wakes.

use crate::animation::{ended, TabAnimation};
use crate::deliveries::earliest;
use crate::floor::SlugPane;
use crate::frame::{
    backoff, in_visible_half, limit_of, surface_act, FrameStart, SurfaceAct, SurfaceStatus,
};
use crate::renderer::Renderer;
use crate::tree::Scalar;
use vstd::prelude::*;

verus! {

/// In a window that has the keyboard the cursor is to be seen for 265
/// milliseconds, and not for the next 265, over and over from when the window
/// opened.
pub proof fn law_cursor_blinks(start: u64, k: u64, ms: u64)
    requires
        ms < 530,
        start + (k * 530 + ms) * 1_000_000 <= u64::MAX,
    ensures
        in_visible_half(start, (start + (k * 530 + ms) * 1_000_000) as u64) <==> ms < 265,
{
    let e = k * 530 + ms;
    let now = (start + e * 1_000_000) as u64;
    assert((e * 1_000_000) / 1_000_000 == e) by (nonlinear_arith);
    assert((k * 530 + ms) % 530 == ms) by (nonlinear_arith)
        requires
            0 <= ms < 530,
    ;
}

/// Where the cursor does not blink, because the window is without the keyboard
/// or the user does not want it, it stays to be seen. A flash is on screen until
/// its time is over, and then forgotten.
pub proof fn law_frame_shows_cursor_and_flash(
    before: Renderer,
    after: Renderer,
    now: u64,
    f: FrameStart,
)
    requires
        after.begun(before, now, f),
    ensures
        !before.focused || !before.config.cursor_blink ==> f.blink_on
            && after.next_blink_deadline is None,
        before.focused && before.config.cursor_blink ==> f.blink_on == in_visible_half(
            before.start_time,
            now,
        ) && after.next_blink_deadline is Some,
        before.bell_flash_until is None ==> !f.flash,
        before.bell_flash_until matches Some(t) ==> f.flash == (now < t),
        !f.flash ==> after.bell_flash_until is None,
        f.flash ==> after.bell_flash_until == before.bell_flash_until,
        after.ws == before.ws,
{
}

/// A frame that was presented is timed: its time is the newest of the last 120,
/// and one more frame is counted. One that was not leaves no trace.
pub proof fn law_frame_is_timed(before: Renderer, after: Renderer, presented: bool, took: Scalar)
    requires
        after.frame_over(before, presented, took),
        before.frame_samples@.len() <= 120,
    ensures
        !presented ==> after == before,
        presented ==> {
            &&& after.frame_samples@.len() > 0
            &&& after.frame_samples@.last() == took
            &&& after.frame_samples@.len() <= 120
            &&& before.frame_samples@.len() < 120 ==> after.frame_samples@.len()
                == before.frame_samples@.len() + 1
            &&& before.frame_count < u64::MAX ==> after.frame_count == before.frame_count + 1
            &&& after.surface_retry_count == 0
            &&& after.next_surface_retry_deadline is None
        },
{
}

/// What a surface answers decides what is done: draw on one that is there, wait
/// for one that is hidden or slow, set one up again that does not fit, and make
/// a new one where it is lost.
pub proof fn law_surface_is_mended()
    ensures
        surface_act(SurfaceStatus::Success) == SurfaceAct::Draw,
        surface_act(SurfaceStatus::Timeout) == SurfaceAct::Wait,
        surface_act(SurfaceStatus::Occluded) == SurfaceAct::Wait,
        surface_act(SurfaceStatus::Outdated) == SurfaceAct::Configure,
        surface_act(SurfaceStatus::Suboptimal) == SurfaceAct::Configure,
        surface_act(SurfaceStatus::Lost) == SurfaceAct::Recreate,
        surface_act(SurfaceStatus::Other) == SurfaceAct::Report,
{
}

/// Each failure in a row doubles the wait, up to its cap.
pub proof fn law_wait_doubles(failures: nat, base: int, cap: int)
    requires
        0 <= base <= cap,
    ensures
        backoff(0, base, cap) == base,
        2 * backoff(failures, base, cap) <= cap ==> backoff(failures + 1, base, cap) == 2 * backoff(
            failures,
            base,
            cap,
        ),
        2 * backoff(failures, base, cap) >= cap ==> backoff(failures + 1, base, cap) == cap,
{
    reveal_with_fuel(backoff, 2);
}

/// A surface that failed is asked again after the wait that its failures in a
/// row call for.
pub proof fn law_failed_surface_is_asked_again(
    before: Renderer,
    after: Renderer,
    s: SurfaceStatus,
    now: u64,
    base: u64,
    cap: u64,
)
    requires
        after.surface_heard(before, s, now, base, cap),
        now + cap <= u64::MAX,
        base <= cap,
    ensures
        s == SurfaceStatus::Success ==> after == before,
        s == SurfaceStatus::Timeout || s == SurfaceStatus::Lost || s == SurfaceStatus::Outdated
            ==> {
            &&& after.next_surface_retry_deadline is Some
            &&& after.next_surface_retry_deadline->0 == now + backoff(
                before.surface_retry_count as nat,
                base as int,
                cap as int,
            )
            &&& before.surface_retry_count < u32::MAX ==> after.surface_retry_count
                == before.surface_retry_count + 1
        },
{
    crate::frame::law_backoff_grows(before.surface_retry_count as nat, base as int, cap as int);
}

proof fn lemma_ended(ends: Seq<u64>, t: int, i: int)
    requires
        0 <= i < ends.len(),
        t < ends[i],
        forall|j: int| 0 <= j < i ==> #[trigger] ends[j] <= t,
    ensures
        ended(ends, t) == i,
    decreases ends.len(),
{
    if i > 0 {
        assert(ends[0] <= t);
        let rest = ends.drop_first();
        assert forall|j: int| 0 <= j < i - 1 implies #[trigger] rest[j] <= t by {
            assert(ends[j + 1] <= t);
        }
        lemma_ended(rest, t, i - 1);
    }
}

/// Of an animation the frame is on screen whose time it is: from when the one
/// before it ended to when it ends itself, counted from the start of the loop.
pub proof fn law_frame_is_on_in_its_time(a: TabAnimation, now: u64, i: int)
    requires
        a.wf(),
        a.total_ms > 0,
        0 <= i < a.frames@.len(),
        a.started_at <= now,
        ({
            let t = ((now - a.started_at) / 1_000_000) % (a.total_ms as int);
            &&& t < a.cumulative@[i]
            &&& i > 0 ==> a.cumulative@[i - 1] <= t
        }),
    ensures
        a.index_at(now) == i,
{
    let t = a.elapsed(now) % (a.total_ms as int);
    assert forall|j: int| 0 <= j < i implies #[trigger] a.cumulative@[j] <= t by {
        assert(a.cumulative@[j] <= a.cumulative@[i - 1]);
    }
    lemma_ended(a.cumulative@, t, i);
}

/// The window wakes no later than anything that is due: a flash that ends, a
/// blink, a scroll, a surface, an Enter, a silent actor; and while a message
/// waits to be typed, within a second and a half.
pub proof fn law_window_wakes_in_time(
    r: Renderer,
    panes: Seq<SlugPane>,
    now: u64,
    wake: Option<u64>,
    i: int,
    k: int,
)
    requires
        earliest(wake, r.moments(panes, now)),
        now + 1_500_000_000 <= u64::MAX,
    ensures
        r.bell_flash_until matches Some(t) ==> (wake matches Some(w) && w <= t),
        r.next_blink_deadline matches Some(t) ==> (wake matches Some(w) && w <= t),
        r.next_autoscroll_deadline matches Some(t) ==> (wake matches Some(w) && w <= t),
        r.next_surface_retry_deadline matches Some(t) ==> (wake matches Some(w) && w <= t),
        0 <= i < r.floor.submits@.len() ==> (wake matches Some(w) && w
            <= r.floor.submits@[i].deadline),
        0 <= k < r.room.actors@.len() && r.room.actors@[k].watch is Some ==> (wake matches Some(w)
            && w <= r.room.actors@[k].watch->0.deadline),
        r.floor_work(panes) ==> (wake matches Some(w) && w <= now + 1_500_000_000),
{
    let ms = r.moments(panes, now);
    if let Some(t) = r.bell_flash_until {
        assert(ms.contains(t));
    }
    if let Some(t) = r.next_blink_deadline {
        assert(ms.contains(t));
    }
    if let Some(t) = r.next_autoscroll_deadline {
        assert(ms.contains(t));
    }
    if let Some(t) = r.next_surface_retry_deadline {
        assert(ms.contains(t));
    }
    if 0 <= i < r.floor.submits@.len() {
        assert(ms.contains(r.floor.submits@[i].deadline));
    }
    if 0 <= k < r.room.actors@.len() && r.room.actors@[k].watch is Some {
        assert(ms.contains(r.room.actors@[k].watch->0.deadline));
    }
    if r.floor_work(panes) {
        assert(ms.contains((now + 1_500_000_000) as u64));
    }
}

/// With nothing due the window sleeps until the next event.
pub proof fn law_window_sleeps(
    r: Renderer,
    panes: Seq<SlugPane>,
    now: u64,
    wake: Option<u64>,
)
    requires
        earliest(wake, r.moments(panes, now)),
        r.bell_flash_until is None,
        r.next_blink_deadline is None,
        r.next_autoscroll_deadline is None,
        r.next_surface_retry_deadline is None,
        r.floor.submits@.len() == 0,
        !r.floor_work(panes),
        forall|k: int| 0 <= k < r.room.actors@.len() ==> (#[trigger] r.room.actors@[k]).watch is None,
        forall|k: int| 0 <= k < r.ws.all().len() ==> (#[trigger] r.ws.all()[k]).animation is None,
    ensures
        wake is None,
{
    if let Some(w) = wake {
        assert(r.moments(panes, now).contains(w));
        let tabs = r.ws.all();
        assert forall|k: int| 0 <= k < tabs.len() implies !#[trigger] crate::deliveries::frame_at(
            tabs[k],
            now,
            w,
        ) by {
            assert(tabs[k].animation is None);
        }
    }
}

/// The limit on memory is as many gibibytes as the setting says; a window is
/// over it when more than that was in use, and never where the limit is nought
/// or nothing is known.
pub proof fn law_memory_limit_is_kept(
    w: Renderer,
    gb: u64,
    limit: u64,
    peak: Option<u64>,
    over: bool,
)
    requires
        limit_of(Some(gb), limit),
        w.kills_at(peak, over),
    ensures
        gb * 1073741824 <= u64::MAX ==> limit == gb * 1073741824,
        gb * 1073741824 > u64::MAX ==> limit == u64::MAX,
        w.rss_kill_bytes == 0 ==> !over,
        peak is None ==> !over,
        w.rss_kill_bytes > 0 && peak is Some ==> (over <==> peak->0 > w.rss_kill_bytes),
{
}

} // verus!

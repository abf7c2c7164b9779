//! Multi-frame images: which frame is due, and when the next one is.

use crate::room::{LATEST, MS};
use vstd::prelude::*;

verus! {

/// Per-tab animation state for multi-frame images. Frames are uploaded once;
/// the frame on screen is picked off the cumulative-delay table.
pub struct TabAnimation {
    /// The host's handles of the frame textures, in playback order.
    pub frames: Vec<u64>,
    /// Display dimensions (largest width and height of any frame).
    pub width: u32,
    pub height: u32,
    /// `cumulative[i]` is the time in milliseconds at which frame `i` ends.
    pub cumulative: Vec<u64>,
    /// Total loop length in milliseconds.
    pub total_ms: u64,
    /// When the loop began, in nanoseconds.
    pub started_at: u64,
}

/// How many of the ends in `ends` have been reached at `t`: the frames before
/// the first that ends after `t`.
pub open spec fn ended(ends: Seq<u64>, t: int) -> int
    decreases ends.len(),
{
    if ends.len() == 0 || ends[0] > t {
        0
    } else {
        1 + ended(ends.drop_first(), t)
    }
}

proof fn lemma_ended(ends: Seq<u64>, t: int, n: int)
    requires
        0 <= n <= ends.len(),
        forall|i: int| 0 <= i < n ==> ends[i] <= t,
        n < ends.len() ==> ends[n] > t,
    ensures
        ended(ends, t) == n,
    decreases n,
{
    if n > 0 {
        let rest = ends.drop_first();
        assert forall|i: int| 0 <= i < n - 1 implies rest[i] <= t by {
            assert(rest[i] == ends[i + 1]);
        }
        assert(ends[0] <= t);
        lemma_ended(rest, t, n - 1);
    }
}

impl TabAnimation {
    /// Every frame has an end, ends do not decrease, and the last one is the
    /// loop's length, which is a time the library can add to a moment.
    pub open spec fn wf(self) -> bool {
        &&& self.frames@.len() == self.cumulative@.len()
        &&& self.total_ms <= LATEST / MS
        &&& self.cumulative@.len() > 0 ==> self.cumulative@.last() == self.total_ms
        &&& forall|i: int, j: int|
            0 <= i <= j < self.cumulative@.len() ==> self.cumulative@[i] <= self.cumulative@[j]
    }

    /// Milliseconds from the start of the loop to `now`.
    pub open spec fn elapsed(self, now: u64) -> int {
        if now >= self.started_at {
            (now - self.started_at) / (MS as int)
        } else {
            0
        }
    }

    /// The frame that is due at `now`.
    pub open spec fn index_at(self, now: u64) -> int {
        if self.total_ms == 0 || self.frames@.len() == 0 {
            0
        } else {
            let n = ended(self.cumulative@, self.elapsed(now) % (self.total_ms as int));
            if n < self.frames@.len() {
                n
            } else {
                self.frames@.len() - 1
            }
        }
    }

    fn elapsed_ms(&self, now: u64) -> (ms: u64)
        ensures
            ms == self.elapsed(now),
    {
        if now >= self.started_at {
            (now - self.started_at) / MS
        } else {
            0
        }
    }

    /// The number of frames that have ended at `t`.
    fn ended_at(&self, t: u64) -> (n: usize)
        ensures
            n == ended(self.cumulative@, t as int),
            n <= self.cumulative@.len(),
            n < self.cumulative@.len() ==> self.cumulative@[n as int] > t,
    {
        let mut n: usize = 0;
        while n < self.cumulative.len() && self.cumulative[n] <= t
            invariant
                n <= self.cumulative@.len(),
                forall|i: int| 0 <= i < n ==> self.cumulative@[i] <= t,
            decreases self.cumulative.len() - n,
        {
            n = n + 1;
        }
        proof {
            lemma_ended(self.cumulative@, t as int, n as int);
        }
        n
    }

    pub fn current_index(&self, now: u64) -> (i: usize)
        requires
            self.wf(),
        ensures
            i == self.index_at(now),
            self.frames@.len() > 0 ==> i < self.frames@.len(),
    {
        if self.total_ms == 0 || self.frames.len() == 0 {
            return 0;
        }
        let n = self.ended_at(self.elapsed_ms(now) % self.total_ms);
        if n < self.frames.len() {
            n
        } else {
            self.frames.len() - 1
        }
    }

    pub fn current_frame(&self, now: u64) -> (f: u64)
        requires
            self.wf(),
            self.frames@.len() > 0,
        ensures
            f == self.frames@[self.index_at(now)],
    {
        self.frames[self.current_index(now)]
    }

    /// Milliseconds until the frame on screen ends.
    pub open spec fn wait(self, now: u64) -> int {
        let phase = self.elapsed(now) % (self.total_ms as int);
        let n = ended(self.cumulative@, phase);
        (if n < self.cumulative@.len() {
            self.cumulative@[n] as int
        } else {
            self.total_ms as int
        }) - phase
    }

    /// The moment when the next frame should appear, so that the main loop
    /// wakes exactly at the frame boundary.
    pub fn next_wakeup(&self, now: u64) -> (r: Option<u64>)
        requires
            self.wf(),
            now <= LATEST,
        ensures
            r is None <==> self.total_ms == 0 || self.frames@.len() == 0,
            r matches Some(t) ==> t == now + self.wait(now) * MS && t > now,
    {
        if self.total_ms == 0 || self.frames.len() == 0 {
            return None;
        }
        let elapsed = self.elapsed_ms(now);
        let phase = elapsed % self.total_ms;
        let n = self.ended_at(phase);
        let boundary = if n < self.cumulative.len() {
            self.cumulative[n]
        } else {
            self.total_ms
        };
        proof {
            let last = self.cumulative@.len() - 1;
            assert(self.cumulative@[last] == self.total_ms);
            if n < self.cumulative@.len() {
                assert(self.cumulative@[n as int] <= self.cumulative@[last]);
            }
            assert((boundary - phase) * MS <= LATEST) by (nonlinear_arith)
                requires
                    0 <= boundary - phase <= LATEST / MS,
                    MS == 1_000_000,
                    LATEST == 0x7fff_ffff_ffff_ffffu64,
            ;
            assert((boundary - phase) * MS > 0) by (nonlinear_arith)
                requires
                    boundary - phase > 0,
                    MS == 1_000_000,
            ;
        }
        Some(now + (boundary - phase) * MS)
    }
}

/// What has ended by `t` and what has not determines the count at every later
/// time that is still before the next end.
proof fn lemma_ended_holds(a: TabAnimation, t: int, u: int)
    requires
        a.wf(),
        t <= u,
        ended(a.cumulative@, t) < a.cumulative@.len() ==> u < a.cumulative@[ended(
            a.cumulative@,
            t,
        )],
    ensures
        ended(a.cumulative@, u) == ended(a.cumulative@, t),
{
    lemma_ended_count(a.cumulative@, t);
    lemma_ended(a.cumulative@, u, ended(a.cumulative@, t));
}

proof fn lemma_ended_count(ends: Seq<u64>, t: int)
    ensures
        0 <= ended(ends, t) <= ends.len(),
        forall|i: int| 0 <= i < ended(ends, t) ==> ends[i] <= t,
        ended(ends, t) < ends.len() ==> ends[ended(ends, t)] > t,
    decreases ends.len(),
{
    if ends.len() > 0 && ends[0] <= t {
        let rest = ends.drop_first();
        lemma_ended_count(rest, t);
        assert forall|i: int| 0 <= i < ended(ends, t) implies ends[i] <= t by {
            if i > 0 {
                assert(rest[i - 1] == ends[i]);
            }
        }
    }
}

/// Until its time is over the frame on screen stays: at every later moment
/// that is fewer milliseconds away than the wait, the same frame is due.
pub proof fn law_frame_holds(a: TabAnimation, now: u64, later: u64)
    requires
        a.wf(),
        a.total_ms > 0,
        a.frames@.len() > 0,
        a.started_at <= now <= later,
        a.elapsed(later) - a.elapsed(now) < a.wait(now),
    ensures
        a.index_at(later) == a.index_at(now),
{
    let total = a.total_ms as int;
    let (e, l) = (a.elapsed(now), a.elapsed(later));
    let (phase, d) = (e % total, l - e);
    lemma_ended_count(a.cumulative@, phase);
    let n = ended(a.cumulative@, phase);
    let last = a.cumulative@.len() - 1;
    assert(a.cumulative@[last] == a.total_ms);
    if n < a.cumulative@.len() {
        assert(a.cumulative@[n] <= a.cumulative@[last]);
    }
    assert(d >= 0) by (nonlinear_arith)
        requires
            d == (later - a.started_at) / (MS as int) - (now - a.started_at) / (MS as int),
            now <= later,
            MS == 1_000_000,
    ;
    vstd::arithmetic::div_mod::lemma_fundamental_div_mod(e, total);
    assert(l == (e / total) * total + (phase + d)) by (nonlinear_arith)
        requires
            l == e + d,
            e == total * (e / total) + phase,
    ;
    assert(0 <= phase) by (nonlinear_arith)
        requires
            phase == e % total,
            total > 0,
    ;
    vstd::arithmetic::div_mod::lemma_fundamental_div_mod_converse(l, total, e / total, phase + d);
    lemma_ended_holds(a, phase, phase + d);
}

/// Waking up after the wait is waking up at the end of the frame: exactly that
/// many milliseconds have passed, and unless the loop starts over a later frame
/// is due.
pub proof fn law_wakeup_ends_frame(a: TabAnimation, now: u64, wakeup: u64)
    requires
        a.wf(),
        a.total_ms > 0,
        a.frames@.len() > 0,
        a.started_at <= now,
        wakeup == now + a.wait(now) * MS,
    ensures
        a.elapsed(wakeup) == a.elapsed(now) + a.wait(now),
        a.elapsed(wakeup) % (a.total_ms as int) != 0 ==> a.index_at(wakeup) > a.index_at(now),
{
    let total = a.total_ms as int;
    let e = a.elapsed(now);
    let (phase, wait) = (e % total, a.wait(now));
    let cs = a.cumulative@;
    lemma_ended_count(cs, phase);
    let n = ended(cs, phase);
    let last = cs.len() - 1;
    assert(cs[last] == a.total_ms);
    vstd::arithmetic::div_mod::lemma_fundamental_div_mod(e, total);
    assert(phase < total) by (nonlinear_arith)
        requires
            phase == e % total,
            total > 0,
    ;
    assert(n < cs.len()) by {
        if n == cs.len() {
            assert(cs[last] <= phase);
        }
    }
    assert(cs[n] <= cs[last]);
    assert(wait > 0);
    assert(wakeup >= now) by (nonlinear_arith)
        requires
            wakeup == now + wait * MS,
            wait > 0,
            MS == 1_000_000,
    ;
    assert((wakeup - a.started_at) / (MS as int) == (now - a.started_at) / (MS as int) + wait)
        by (nonlinear_arith)
        requires
            wakeup - a.started_at == (now - a.started_at) + wait * MS,
            MS == 1_000_000,
    ;
    let w = e + wait;
    if w % total != 0 {
        let end = cs[n] as int;
        assert(w == (e / total) * total + end) by (nonlinear_arith)
            requires
                w == e + (end - phase),
                e == total * (e / total) + phase,
        ;
        if end == total {
            assert(w % total == 0) by (nonlinear_arith)
                requires
                    w == (e / total) * total + total,
                    total > 0,
            ;
        }
        vstd::arithmetic::div_mod::lemma_fundamental_div_mod_converse(w, total, e / total, end);
        lemma_ended_count(cs, end);
        let m = ended(cs, end);
        if m <= n {
            assert(cs[m] <= cs[n]);
        }
        if m == cs.len() {
            assert(cs[last] <= end);
        }
    }
}

/// One decoded frame: the host's handle of its texture, its size, and how long
/// it is shown, in milliseconds.
#[derive(Copy, Clone, PartialEq, Eq, Structural, Debug)]
pub struct Frame {
    pub texture: u64,
    pub width: u32,
    pub height: u32,
    pub delay: u64,
}

/// How long frames are shown, one after another.
pub open spec fn shown_for(frames: Seq<Frame>) -> int
    decreases frames.len(),
{
    if frames.len() == 0 {
        0
    } else {
        shown_for(frames.drop_last()) + frames.last().delay
    }
}

proof fn lemma_shown_for(frames: Seq<Frame>, i: int, j: int)
    requires
        0 <= i <= j <= frames.len(),
    ensures
        0 <= shown_for(frames.take(i)) <= shown_for(frames.take(j)),
    decreases j,
{
    if j > 0 {
        assert(frames.take(j).drop_last() =~= frames.take(j - 1));
        if i < j {
            lemma_shown_for(frames, i, j - 1);
        } else {
            lemma_shown_for(frames, i - 1, j - 1);
        }
    }
}

/// The largest of some sizes.
pub open spec fn largest(sizes: Seq<u32>) -> u32
    decreases sizes.len(),
{
    if sizes.len() == 0 {
        0
    } else {
        let rest = largest(sizes.drop_last());
        if sizes.last() > rest {
            sizes.last()
        } else {
            rest
        }
    }
}

impl TabAnimation {
    /// An animation of these frames that starts at `now`.
    pub fn of_frames(frames: &Vec<Frame>, total_ms: u64, now: u64) -> (a: Self)
        requires
            shown_for(frames@) == total_ms,
            total_ms <= LATEST / MS,
        ensures
            a.wf(),
            a.frames@ == frames@.map_values(|f: Frame| f.texture),
            a.width == largest(frames@.map_values(|f: Frame| f.width)),
            a.height == largest(frames@.map_values(|f: Frame| f.height)),
            forall|i: int|
                0 <= i < frames@.len() ==> #[trigger] a.cumulative@[i] == shown_for(
                    frames@.take(i + 1),
                ),
            a.total_ms == total_ms,
            a.started_at == now,
    {
        let ghost n = frames@.len() as int;
        let ghost widths = frames@.map_values(|f: Frame| f.width);
        let ghost heights = frames@.map_values(|f: Frame| f.height);
        let mut textures: Vec<u64> = Vec::new();
        let mut cumulative: Vec<u64> = Vec::new();
        let mut width: u32 = 0;
        let mut height: u32 = 0;
        let mut acc: u64 = 0;
        let mut i: usize = 0;
        assert(frames@.take(n) =~= frames@);
        while i < frames.len()
            invariant
                i <= frames@.len(),
                n == frames@.len(),
                shown_for(frames@.take(n)) <= LATEST / MS,
                widths == frames@.map_values(|f: Frame| f.width),
                heights == frames@.map_values(|f: Frame| f.height),
                textures@.len() == i,
                forall|j: int| 0 <= j < i ==> #[trigger] textures@[j] == frames@[j].texture,
                cumulative@.len() == i,
                forall|j: int|
                    0 <= j < i ==> #[trigger] cumulative@[j] == shown_for(frames@.take(j + 1)),
                acc == shown_for(frames@.take(i as int)),
                width == largest(widths.take(i as int)),
                height == largest(heights.take(i as int)),
            decreases frames.len() - i,
        {
            let f = frames[i];
            proof {
                lemma_shown_for(frames@, i + 1, n);
                assert(frames@.take(i + 1).drop_last() =~= frames@.take(i as int));
                assert(widths.take(i + 1).drop_last() =~= widths.take(i as int));
                assert(heights.take(i + 1).drop_last() =~= heights.take(i as int));
            }
            if f.width > width {
                width = f.width;
            }
            if f.height > height {
                height = f.height;
            }
            textures.push(f.texture);
            acc = acc.saturating_add(f.delay);
            cumulative.push(acc);
            i = i + 1;
        }
        proof {
            assert(widths.take(n) =~= widths);
            assert(heights.take(n) =~= heights);
            assert(textures@ =~= frames@.map_values(|f: Frame| f.texture));
            assert forall|a: int, b: int| 0 <= a <= b < cumulative@.len() implies cumulative@[a]
                <= cumulative@[b] by {
                lemma_shown_for(frames@, a + 1, b + 1);
            }
        }
        TabAnimation { frames: textures, width, height, cumulative, total_ms, started_at: now }
    }
}

} // verus!

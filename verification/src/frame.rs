//! One frame: what of it depends on the time, what each pane shows, and what
//! becomes of a surface that does not deliver.

use crate::acp::{acp_body, render_acp_body};
use crate::renderer::{Renderer, FRAME_TIMER_CAP};
use crate::retab::{lemma_own_place, lemma_pane_tab};
use crate::room::{LATEST, MS};
use crate::selection::Selection;
use crate::tab::{
    find_module, module_with, non_shell_body, static_body, ModuleKind, ModuleManifest, Tab,
    TabContentKind, TabId,
};
use crate::tree::{Pane, PaneId, Scalar};
use crate::wheel::uncovered;
use vstd::prelude::*;

verus! {

/// How long the cursor takes to blink once, in milliseconds: half of it on,
/// half of it off.
pub const CURSOR_BLINK_PERIOD_MS: u64 = 530;

/// Half a blink.
pub const CURSOR_BLINK_HALF_MS: u64 = 265;

/// Whole milliseconds from `start` to `now`.
pub open spec fn elapsed_ms(start: u64, now: u64) -> int {
    if now >= start {
        (now - start) / (MS as int)
    } else {
        0
    }
}

/// The cursor is in the visible half of its blink.
pub open spec fn in_visible_half(start: u64, now: u64) -> bool {
    elapsed_ms(start, now) % (CURSOR_BLINK_PERIOD_MS as int) < CURSOR_BLINK_HALF_MS
}

/// When the current half of the blink is over.
pub open spec fn half_ends(start: u64, now: u64) -> int {
    now + (CURSOR_BLINK_HALF_MS - elapsed_ms(start, now) % (CURSOR_BLINK_HALF_MS as int)) * MS
}

/// When a half of the blink is over, the other one begins.
pub proof fn law_blink_goes_on(start: u64, now: u64)
    requires
        start <= now,
        now <= LATEST,
    ensures
        now < half_ends(start, now) <= u64::MAX,
        in_visible_half(start, half_ends(start, now) as u64) != in_visible_half(start, now),
{
    let e = elapsed_ms(start, now);
    let k = CURSOR_BLINK_HALF_MS - e % (CURSOR_BLINK_HALF_MS as int);
    let then = half_ends(start, now) as u64;
    assert(then - start == (now - start) + k * MS);
    assert((now - start + k * MS) / (MS as int) == (now - start) / (MS as int) + k)
        by (nonlinear_arith)
        requires
            MS == 1_000_000,
    ;
    assert(elapsed_ms(start, then) == e + k);
    let q = e / (CURSOR_BLINK_HALF_MS as int);
    assert(e + k == (q + 1) * CURSOR_BLINK_HALF_MS) by (nonlinear_arith)
        requires
            CURSOR_BLINK_HALF_MS == 265,
            q == e / 265,
            k == 265 - e % 265,
    ;
}

/// What of a frame depends on the time.
#[derive(Copy, Clone, PartialEq, Eq, Structural, Debug)]
pub struct FrameStart {
    /// The cursor is visible.
    pub blink_on: bool,
    /// The bell's flash is on screen.
    pub flash: bool,
}

impl Renderer {
    /// `self` is `before` once a frame has begun.
    pub open spec fn begun(self, before: Renderer, now: u64, f: FrameStart) -> bool {
        let blink = before.focused && before.config.cursor_blink;
        &&& f.blink_on == (!blink || in_visible_half(before.start_time, now))
        &&& f.flash == (before.bell_flash_until matches Some(t) && now < t)
        &&& self == Renderer {
            next_blink_deadline: if blink {
                Some(half_ends(before.start_time, now) as u64)
            } else {
                None
            },
            next_autoscroll_deadline: None,
            bell_flash_until: if f.flash {
                before.bell_flash_until
            } else {
                None
            },
            ..before
        }
    }

    /// Begin a frame. The cursor blinks while the window has the keyboard,
    /// unless that is switched off; the next change of its phase is a
    /// deadline.
    pub fn begin_frame(&mut self, now: u64) -> (f: FrameStart)
        requires
            old(self).wf(),
            now <= LATEST,
        ensures
            final(self).wf(),
            final(self).begun(*old(self), now, f),
    {
        let blink = self.focused && self.config.cursor_blink;
        let elapsed: u64 = if now >= self.start_time {
            (now - self.start_time) / MS
        } else {
            0
        };
        let blink_on = !blink || elapsed % CURSOR_BLINK_PERIOD_MS < CURSOR_BLINK_HALF_MS;
        self.next_blink_deadline = if blink {
            let left: u64 = CURSOR_BLINK_HALF_MS - elapsed % CURSOR_BLINK_HALF_MS;
            Some(now + left * MS)
        } else {
            None
        };
        self.next_autoscroll_deadline = None;
        let flash = match self.bell_flash_until {
            Some(t) => now < t,
            None => false,
        };
        if !flash {
            self.bell_flash_until = None;
        }
        FrameStart { blink_on, flash }
    }

    /// `self` is `before` once a frame is over that has taken `took`
    /// milliseconds. One that was presented is counted, and ends whatever
    /// trouble there was with the surface; the oldest timings are dropped. One
    /// that was not leaves no trace.
    pub open spec fn frame_over(self, before: Renderer, presented: bool, took: Scalar) -> bool {
        if presented {
            &&& self == Renderer {
                frame_samples: self.frame_samples,
                frame_count: self.frame_count,
                next_surface_retry_deadline: None,
                surface_retry_count: 0,
                ..before
            }
            &&& self.frame_samples@ == (if before.frame_samples@.len() == FRAME_TIMER_CAP {
                before.frame_samples@.drop_first()
            } else {
                before.frame_samples@
            }).push(took)
            &&& self.frame_count == (if before.frame_count == u64::MAX {
                u64::MAX as int
            } else {
                before.frame_count + 1
            })
        } else {
            self == before
        }
    }

    /// A frame is over; `presented` says whether it got on screen.
    pub fn frame_ended(&mut self, presented: bool, took: Scalar)
        requires
            old(self).wf(),
        ensures
            final(self).wf(),
            final(self).frame_over(*old(self), presented, took),
    {
        if !presented {
            return;
        }
        if self.frame_samples.len() == FRAME_TIMER_CAP {
            let _ = self.frame_samples.remove(0);
            assert(self.frame_samples@ =~= old(self).frame_samples@.drop_first());
        }
        self.frame_samples.push(took);
        self.frame_count = self.frame_count.saturating_add(1);
        self.next_surface_retry_deadline = None;
        self.surface_retry_count = 0;
    }
}

/// How the surface answered when it was asked for a texture.
#[derive(Copy, Clone, PartialEq, Eq, Structural, Debug)]
pub enum SurfaceStatus {
    Success,
    Timeout,
    Occluded,
    Outdated,
    Suboptimal,
    Lost,
    Other,
}

/// What the host does about it.
#[derive(Copy, Clone, PartialEq, Eq, Structural, Debug)]
pub enum SurfaceAct {
    /// Draw the frame.
    Draw,
    /// Nothing but wait.
    Wait,
    /// Configure the surface again.
    Configure,
    /// Make a new surface.
    Recreate,
    /// Report the status, and leave it at that.
    Report,
}

/// What the host does about a status.
pub open spec fn surface_act(s: SurfaceStatus) -> SurfaceAct {
    match s {
        SurfaceStatus::Success => SurfaceAct::Draw,
        SurfaceStatus::Timeout => SurfaceAct::Wait,
        SurfaceStatus::Occluded => SurfaceAct::Wait,
        SurfaceStatus::Outdated => SurfaceAct::Configure,
        SurfaceStatus::Suboptimal => SurfaceAct::Configure,
        SurfaceStatus::Lost => SurfaceAct::Recreate,
        SurfaceStatus::Other => SurfaceAct::Report,
    }
}

/// How long to wait after `failures` failures in a row: twice as long after
/// each, from `base` up to `cap`.
pub open spec fn backoff(failures: nat, base: int, cap: int) -> int
    decreases failures,
{
    let d = if failures == 0 {
        base
    } else {
        2 * backoff((failures - 1) as nat, base, cap)
    };
    if d < cap {
        d
    } else {
        cap
    }
}

/// The wait never gets shorter from one failure to the next, and never longer
/// than its cap.
pub proof fn law_backoff_grows(failures: nat, base: int, cap: int)
    requires
        0 <= base,
        0 <= cap,
    ensures
        0 <= backoff(failures, base, cap) <= backoff(failures + 1, base, cap) <= cap,
    decreases failures,
{
    reveal_with_fuel(backoff, 2);
    if failures > 0 {
        law_backoff_grows((failures - 1) as nat, base, cap);
    }
}

proof fn lemma_backoff_capped(failures: nat, more: nat, base: int, cap: int)
    requires
        0 <= base,
        0 <= cap,
        failures <= more,
        backoff(failures, base, cap) == cap,
    ensures
        backoff(more, base, cap) == cap,
    decreases more,
{
    if failures < more {
        lemma_backoff_capped(failures, (more - 1) as nat, base, cap);
        law_backoff_grows((more - 1) as nat, base, cap);
    }
}

fn backoff_after(failures: u32, base: u64, cap: u64) -> (d: u64)
    requires
        cap <= LATEST,
    ensures
        d == backoff(failures as nat, base as int, cap as int),
{
    let mut d: u64 = if base < cap {
        base
    } else {
        cap
    };
    let mut i: u32 = 0;
    while i < failures && d < cap
        invariant
            i <= failures,
            cap <= LATEST,
            d <= cap,
            d == backoff(i as nat, base as int, cap as int),
        decreases failures - i,
    {
        d = if 2 * d < cap {
            2 * d
        } else {
            cap
        };
        i = i + 1;
    }
    proof {
        if i < failures {
            lemma_backoff_capped(i as nat, failures as nat, base as int, cap as int);
        }
    }
    d
}

impl Renderer {
    /// `self` is `before` once the surface has answered. One that fails is
    /// tried again after a wait that grows from `base` up to `cap`.
    pub open spec fn surface_heard(
        self,
        before: Renderer,
        s: SurfaceStatus,
        now: u64,
        base: u64,
        cap: u64,
    ) -> bool {
        if s is Success || s is Other {
            self == before
        } else {
            self == Renderer {
                next_surface_retry_deadline: Some(
                    (now + backoff(before.surface_retry_count as nat, base as int, cap as int)) as u64,
                ),
                surface_retry_count: if before.surface_retry_count == u32::MAX {
                    u32::MAX
                } else {
                    (before.surface_retry_count + 1) as u32
                },
                ..before
            }
        }
    }

    /// What to do about the surface's answer. A surface that fails is tried
    /// again after a while, not at once: it may be invalid for as long as a
    /// display takes to change its mode.
    pub fn surface_answered(&mut self, s: SurfaceStatus, now: u64, base: u64, cap: u64) -> (act:
        SurfaceAct)
        requires
            old(self).wf(),
            now <= LATEST,
            cap <= LATEST,
        ensures
            final(self).wf(),
            act == surface_act(s),
            final(self).surface_heard(*old(self), s, now, base, cap),
    {
        let act = match s {
            SurfaceStatus::Success => SurfaceAct::Draw,
            SurfaceStatus::Timeout | SurfaceStatus::Occluded => SurfaceAct::Wait,
            SurfaceStatus::Outdated | SurfaceStatus::Suboptimal => SurfaceAct::Configure,
            SurfaceStatus::Lost => SurfaceAct::Recreate,
            SurfaceStatus::Other => SurfaceAct::Report,
        };
        if s != SurfaceStatus::Success && s != SurfaceStatus::Other {
            let wait = backoff_after(self.surface_retry_count, base, cap);
            proof {
                law_backoff_grows(self.surface_retry_count as nat, base as int, cap as int);
            }
            self.next_surface_retry_deadline = Some(now + wait);
            self.surface_retry_count = self.surface_retry_count.saturating_add(1);
        }
        act
    }
}

/// A whole frame, from its start over the panes and the surface's answer to its
/// end. The window of timings stays within its cap. A frame for which the
/// surface gave a texture is counted once, and its timing is the newest of the
/// window; any other frame leaves count and timings as they were, and when the
/// surface is tried again as its answer had set it.
pub proof fn law_frame_is_counted_once(
    before: Renderer,
    begun: Renderer,
    drawn: Renderer,
    heard: Renderer,
    after: Renderer,
    f: FrameStart,
    s: SurfaceStatus,
    now: u64,
    base: u64,
    cap: u64,
    took: Scalar,
)
    requires
        before.wf(),
        begun.begun(before, now, f),
        drawn == (Renderer {
            ws: drawn.ws,
            next_autoscroll_deadline: drawn.next_autoscroll_deadline,
            ..begun
        }),
        heard.surface_heard(drawn, s, now, base, cap),
        after.frame_over(heard, surface_act(s) is Draw, took),
    ensures
        after.frame_samples@.len() <= FRAME_TIMER_CAP,
        s is Success ==> {
            &&& after.frame_count == (if before.frame_count == u64::MAX {
                u64::MAX as int
            } else {
                before.frame_count + 1
            })
            &&& after.frame_samples@ == (if before.frame_samples@.len() == FRAME_TIMER_CAP {
                before.frame_samples@.drop_first()
            } else {
                before.frame_samples@
            }).push(took)
            &&& after.next_surface_retry_deadline is None
            &&& after.surface_retry_count == 0
        },
        !(s is Success) ==> {
            &&& after.frame_count == before.frame_count
            &&& after.frame_samples == before.frame_samples
            &&& after.next_surface_retry_deadline == heard.next_surface_retry_deadline
            &&& after.surface_retry_count == heard.surface_retry_count
        },
{
}

/// A pane is drawn from a terminal: it shows a shell, or a module that has a
/// terminal of its own.
pub open spec fn from_terminal(kind: TabContentKind, ms: Seq<ModuleManifest>) -> bool {
    match kind {
        TabContentKind::Shell => true,
        TabContentKind::Module(id) => module_with(ms, id@) matches Some(m) && m.kind
            == ModuleKind::Tty,
        _ => false,
    }
}

/// The text of a tab that is not drawn from a terminal: what its module sent,
/// its conversation, or what stands in for either.
pub open spec fn body_text(t: Tab, ms: Seq<ModuleManifest>) -> Seq<char> {
    if t.module_session matches Some(body) && body@.len() > 0 {
        t.module_session->0@
    } else if t.kind is Agent {
        match t.acp_session {
            Some(s) => acp_body(s),
            None => Seq::empty(),
        }
    } else {
        static_body(t.kind, ms)
    }
}

/// The tab shows a module that has no terminal.
pub open spec fn without_terminal(t: Tab) -> bool {
    t.kind is Module && !t.module_pty
}

/// What image of a tab is on screen.
pub open spec fn image_of(t: Tab, now: u64) -> Option<u64> {
    match t.animation {
        Some(a) => Some(a.frames@[a.index_at(now)]),
        None => t.image,
    }
}

impl Tab {
    /// Whether the tab is drawn from a terminal.
    pub fn draws_terminal(&self, ms: &Vec<ModuleManifest>) -> (r: bool)
        ensures
            r == from_terminal(self.kind, ms@),
    {
        match &self.kind {
            TabContentKind::Shell => true,
            TabContentKind::Module(id) => match find_module(ms, id.as_str()) {
                Some(m) => m.kind == ModuleKind::Tty,
                None => false,
            },
            _ => false,
        }
    }

    /// The text of a tab that is not drawn from a terminal.
    pub fn body(&self, ms: &Vec<ModuleManifest>) -> (s: String)
        ensures
            s@ == body_text(*self, ms@),
    {
        if let Some(body) = &self.module_session {
            if !body.as_str().is_empty() {
                return body.clone();
            }
        }
        match &self.kind {
            TabContentKind::Agent(_) => match &self.acp_session {
                Some(s) => render_acp_body(s),
                None => String::new(),
            },
            _ => non_shell_body(&self.kind, ms),
        }
    }

    /// Whether the text is left out because an image stands in its place. A
    /// shell keeps both.
    pub fn hides_text(&self) -> (r: bool)
        ensures
            r == (without_terminal(*self) && (self.image is Some || self.animation is Some)),
    {
        self.kind.is_module() && !self.module_pty && (self.image.is_some()
            || self.animation.is_some())
    }

    /// The image that is on screen; an animation comes before a still one.
    pub fn image_shown(&self, now: u64) -> (r: Option<u64>)
        requires
            self.wf(),
            self.animation matches Some(a) ==> a.frames@.len() > 0,
        ensures
            r == image_of(*self, now),
    {
        match &self.animation {
            Some(a) => Some(a.current_frame(now)),
            None => self.image,
        }
    }
}

/// The first of the laid-out rows that shows a source line; the number of rows
/// where none does. A long line takes several rows, so that the two counts
/// part.
pub open spec fn row_of(lines: Seq<u32>, line: u32) -> int
    decreases lines.len(),
{
    if lines.len() == 0 || lines[0] == line {
        0
    } else {
        1 + row_of(lines.drop_first(), line)
    }
}

/// The first of the laid-out rows that shows a source line. `lines` has the
/// source line of each row.
pub fn first_row(lines: &Vec<u32>, line: u32) -> (r: Option<usize>)
    ensures
        match r {
            Some(i) => i == row_of(lines@, line) && i < lines@.len(),
            None => row_of(lines@, line) == lines@.len(),
        },
{
    let mut i: usize = 0;
    assert(lines@.skip(0) =~= lines@);
    while i < lines.len()
        invariant
            i <= lines@.len(),
            row_of(lines@, line) == i + row_of(lines@.skip(i as int), line),
        decreases lines.len() - i,
    {
        if lines[i] == line {
            return Some(i);
        }
        assert(lines@.skip(i as int).drop_first() =~= lines@.skip(i + 1));
        i = i + 1;
    }
    None
}

impl Renderer {
    /// The id of the tab that a pane shows.
    fn shown_id(&self, pid: PaneId) -> (r: Option<TabId>)
        requires
            self.wf(),
        ensures
            r is Some <==> self.ws.tree().has(pid),
            r matches Some(id) ==> {
                &&& self.ws.tree().has_tab(id)
                &&& self.ws.tree().tab(id) == self.ws.tree().pane(pid).shown()
                &&& id == self.ws.tree().pane(pid).shown().id
            },
    {
        match self.ws.root_ref().find(pid) {
            Some(p) => {
                proof {
                    let t = self.ws.tree();
                    self.ws.lemma_pane_wf(pid);
                    lemma_pane_tab(t, pid, t.pane(pid).active_tab as int);
                    lemma_own_place(
                        t.tabs(),
                        t.first_tab(pid) + t.pane(pid).active_tab,
                        self.ws.next_tab_id,
                    );
                }
                Some(p.active_tab_ref().id)
            },
            None => None,
        }
    }

    /// `self` is `before` with the tab that a pane shows changed to `t`.
    pub open spec fn shown_changed(self, before: Renderer, pid: PaneId, t: Tab) -> bool {
        self.tab_changed(before, before.ws.tree().pane(pid).shown().id, t)
    }

    /// The terminal of a pane has been scrolled on under a drag-selection, and
    /// is scrolled back by `after` lines now: the selection reaches to the edge
    /// that came into view, and the next step is a tick away.
    pub fn autoscrolled(&mut self, pid: PaneId, after: usize, now: u64)
        requires
            old(self).wf(),
            old(self).ws.tree().has(pid),
            after <= i32::MAX,
            now <= LATEST,
        ensures
            final(self).wf(),
            ({
                let t = old(self).ws.tree().pane(pid).shown();
                match t.autoscroll_dir {
                    None => *final(self) == *old(self),
                    Some(dir) => {
                        let edge = uncovered(dir as int, after, t.cols, t.rows);
                        let ticked = Renderer {
                            next_autoscroll_deadline: Some(
                                (now + crate::input::AUTOSCROLL_TICK) as u64,
                            ),
                            ..*old(self)
                        };
                        final(self).shown_changed(
                            ticked,
                            pid,
                            Tab {
                                selection: match t.selection {
                                    Some(s) => Some(
                                        Selection {
                                            head_line: edge.0 as i32,
                                            head_col: edge.1 as usize,
                                            ..s
                                        },
                                    ),
                                    None => None,
                                },
                                ..t
                            },
                        )
                    },
                }
            }),
    {
        let id = match self.shown_id(pid) {
            Some(id) => id,
            None => {
                return ;
            },
        };
        let dir = match self.ws.root_ref().find_tab(id) {
            Some(t) => t.autoscroll_dir,
            None => None,
        };
        let dir: i32 = match dir {
            Some(d) => d,
            None => {
                return ;
            },
        };
        self.next_autoscroll_deadline = Some(now + crate::input::AUTOSCROLL_TICK);
        if let Some(tab) = self.ws.tab_mut(id) {
            let (line, col): (i32, usize) = if dir > 0 {
                (-(after as i32), 0)
            } else {
                (
                    tab.rows as i32 - 1 - after as i32,
                    if tab.cols > 0 {
                        tab.cols - 1
                    } else {
                        0
                    },
                )
            };
            if let Some(sel) = &mut tab.selection {
                sel.extend_to(line, col);
            }
        }
    }

    /// The text of the terminal that a pane shows has been shaped.
    pub fn text_shaped(&mut self, pid: PaneId)
        requires
            old(self).wf(),
            old(self).ws.tree().has(pid),
        ensures
            final(self).wf(),
            final(self).shown_changed(
                *old(self),
                pid,
                Tab { buffer_dirty: false, ..old(self).ws.tree().pane(pid).shown() },
            ),
    {
        if let Some(id) = self.shown_id(pid) {
            if let Some(tab) = self.ws.tab_mut(id) {
                tab.buffer_dirty = false;
            }
        }
    }

    /// The body that a pane shows has been shaped, and scrolled to where the
    /// line that was to be brought on screen is.
    pub fn body_shaped(&mut self, pid: PaneId, scroll_y: Scalar)
        requires
            old(self).wf(),
            old(self).ws.tree().has(pid),
        ensures
            final(self).wf(),
            final(self).shown_changed(
                *old(self),
                pid,
                Tab {
                    content_ready: true,
                    module_scroll_y: scroll_y,
                    pending_ensure_visible: None,
                    ..old(self).ws.tree().pane(pid).shown()
                },
            ),
    {
        if let Some(id) = self.shown_id(pid) {
            if let Some(tab) = self.ws.tab_mut(id) {
                tab.content_ready = true;
                tab.module_scroll_y = scroll_y;
                tab.pending_ensure_visible = None;
            }
        }
    }
}

/// The line under a tab's title.
#[derive(Copy, Clone, PartialEq, Eq, Structural, Debug)]
pub enum Underline {
    Plain,
    /// The tab on show, where keystrokes go.
    Bright,
    /// The tab on show of a pane without the focus.
    Dim,
}

/// How one tab is marked in its bar.
#[derive(Copy, Clone, PartialEq, Eq, Structural, Debug)]
pub struct TabMark {
    pub underline: Underline,
    /// The band of colour above the title.
    pub band: Option<u8>,
}

/// How the tab at place `i` of a pane is marked.
pub open spec fn mark_of(p: Pane, i: int, focused: bool) -> TabMark {
    TabMark {
        underline: if i != p.active_tab {
            Underline::Plain
        } else if focused {
            Underline::Bright
        } else {
            Underline::Dim
        },
        band: if p.tabs@[i].color_idx != 0 {
            Some(p.tabs@[i].color_idx)
        } else {
            None
        },
    }
}

impl Renderer {
    /// The marks in a tab bar.
    pub open spec fn marks_shown(self, pid: PaneId, r: Vec<TabMark>) -> bool {
        &&& r@.len() == self.ws.tree().pane(pid).tabs@.len()
        &&& (forall|i: int|
            0 <= i < r@.len() ==> #[trigger] r@[i] == mark_of(
                self.ws.tree().pane(pid),
                i,
                pid == self.ws.active_pane,
            ))
    }

    /// How the tabs of a pane are marked in its bar. Exactly one bar of the
    /// window marks where keystrokes go.
    pub fn tab_marks(&self, pid: PaneId) -> (r: Vec<TabMark>)
        requires
            self.wf(),
            self.ws.tree().has(pid),
        ensures
            self.marks_shown(pid, r),
    {
        let mut r: Vec<TabMark> = Vec::new();
        if let Some(p) = self.ws.root_ref().find(pid) {
            let focused = pid == self.ws.active_pane;
            let mut i: usize = 0;
            while i < p.tabs.len()
                invariant
                    i <= p.tabs@.len(),
                    r@.len() == i,
                    forall|k: int| 0 <= k < i ==> #[trigger] r@[k] == mark_of(*p, k, focused),
                decreases p.tabs.len() - i,
            {
                let underline = if i != p.active_tab {
                    Underline::Plain
                } else if focused {
                    Underline::Bright
                } else {
                    Underline::Dim
                };
                let c = p.tabs[i].color_idx;
                r.push(
                    TabMark {
                        underline,
                        band: if c != 0 {
                            Some(c)
                        } else {
                            None
                        },
                    },
                );
                i = i + 1;
            }
        }
        r
    }

    /// Whether a pane's corner handle is being dragged.
    pub fn grip_active(&self, pid: PaneId) -> (r: bool)
        ensures
            r == (self.split_gesture matches Some(g) && g.pid == pid),
    {
        match &self.split_gesture {
            Some(g) => g.pid == pid,
            None => false,
        }
    }
}

/// What stands over everything else.
#[derive(Copy, Clone, PartialEq, Eq, Structural, Debug)]
pub enum OnTop {
    Nothing,
    Modal,
    Menu,
}

impl Renderer {
    /// What stands over everything else; a modal wins over a menu.
    pub fn on_top(&self) -> (r: OnTop)
        ensures
            r == (if self.modal is Some {
                OnTop::Modal
            } else if self.context_menu is Some {
                OnTop::Menu
            } else {
                OnTop::Nothing
            }),
    {
        if self.modal.is_some() {
            OnTop::Modal
        } else if self.context_menu.is_some() {
            OnTop::Menu
        } else {
            OnTop::Nothing
        }
    }
}

/// Bytes in a gigabyte.
pub const GIB: u64 = 1_073_741_824;

/// The limit on peak memory where none is set, in gigabytes.
pub const DEFAULT_RSS_LIMIT_GB: u64 = 4;

/// The limit that a setting stands for.
pub open spec fn limit_of(setting: Option<u64>, r: u64) -> bool {
    let want = match setting {
        Some(gb) => gb * GIB,
        None => DEFAULT_RSS_LIMIT_GB * GIB,
    };
    r == (if want <= u64::MAX {
        want
    } else {
        u64::MAX as int
    })
}

/// The peak memory beyond which the program gives up, from a setting in
/// gigabytes.
pub fn rss_limit_bytes(setting: Option<u64>) -> (r: u64)
    ensures
        limit_of(setting, r),
{
    let gb = match setting {
        Some(gb) => gb,
        None => DEFAULT_RSS_LIMIT_GB,
    };
    match gb.checked_mul(GIB) {
        Some(n) => n,
        None => u64::MAX,
    }
}

impl Renderer {
    /// Whether the memory that was in use is beyond the limit.
    pub open spec fn kills_at(self, peak: Option<u64>, r: bool) -> bool {
        r == (self.rss_kill_bytes != 0 && (peak matches Some(p) && p > self.rss_kill_bytes))
    }

    /// Whether peak memory is beyond the limit; a limit of zero is none.
    pub fn over_memory_limit(&self, peak: Option<u64>) -> (r: bool)
        ensures
            self.kills_at(peak, r),
    {
        match peak {
            Some(p) => self.rss_kill_bytes != 0 && p > self.rss_kill_bytes,
            None => false,
        }
    }
}

} // verus!

//! What is painted of a terminal pane besides its text, in cells.

use crate::find::{find_rows, match_rows, MatchRow};
use crate::renderer::Renderer;
use crate::selection::{selection_rows, shows, RowSpan, Selection};
use crate::tab::Tab;
use crate::tree::PaneId;
use crate::workspace::lemma_pane_tabs_ok;
use vstd::prelude::*;

verus! {

/// Cells of one row in one colour. Row `-1` is the one above the viewport.
#[derive(Copy, Clone, PartialEq, Eq, Structural, Debug)]
pub struct Run {
    pub line: i32,
    pub start_col: usize,
    pub width: usize,
    pub color: u32,
}

#[derive(Copy, Clone, PartialEq, Eq, Structural, Debug)]
pub enum DecorationKind {
    Underline,
    DoubleUnderline,
    Strikeout,
}

/// A line through or under cells of one row.
#[derive(Copy, Clone, PartialEq, Eq, Structural, Debug)]
pub struct DecorationRun {
    pub run: Run,
    pub kind: DecorationKind,
}

#[derive(Copy, Clone, PartialEq, Eq, Structural, Debug)]
pub enum CursorShape {
    Block,
    HollowBlock,
    Beam,
    Underline,
    Hidden,
}

/// What a terminal looks like, besides its text.
pub struct Snapshot {
    pub backgrounds: Vec<Run>,
    pub decorations: Vec<DecorationRun>,
    pub links: Vec<Run>,
    pub cursor_line: i32,
    pub cursor_col: usize,
    pub cursor_shape: CursorShape,
}

/// What cells are painted with.
#[derive(Copy, Clone, PartialEq, Eq, Structural, Debug)]
pub enum Ink {
    Background(u32),
    Selection,
    Match,
    CurrentMatch,
    Cursor(CursorShape),
    Underline(u32),
    /// The upper line of a double underline.
    SecondUnderline(u32),
    Strikeout(u32),
    Link,
}

/// Cells of one row, and what they are painted with.
#[derive(Copy, Clone, PartialEq, Eq, Structural, Debug)]
pub struct Mark {
    pub line: i32,
    pub col: usize,
    pub width: usize,
    pub ink: Ink,
}

/// What is painted under the text of a pane and over it, each in its order.
pub struct PanePaint {
    pub below: Vec<Mark>,
    pub above: Vec<Mark>,
}

/// The backgrounds of cells.
pub open spec fn background_marks(runs: Seq<Run>) -> Seq<Mark> {
    runs.map_values(
        |r: Run|
            Mark {
                line: r.line,
                col: r.start_col,
                width: r.width,
                ink: Ink::Background(r.color),
            },
    )
}

/// The highlight of a selection.
pub open spec fn selection_marks(spans: Seq<RowSpan>) -> Seq<Mark> {
    spans.map_values(
        |s: RowSpan|
            Mark {
                line: s.row,
                col: s.start,
                width: (s.end - s.start) as usize,
                ink: Ink::Selection,
            },
    )
}

/// The highlights of matches.
pub open spec fn match_marks(ms: Seq<MatchRow>) -> Seq<Mark> {
    ms.map_values(
        |m: MatchRow|
            Mark {
                line: m.row,
                col: m.start,
                width: (m.end - m.start) as usize,
                ink: if m.current {
                    Ink::CurrentMatch
                } else {
                    Ink::Match
                },
            },
    )
}

/// The cursor, where it is to be seen.
pub open spec fn cursor_marks(s: Snapshot, blink_on: bool) -> Seq<Mark> {
    if s.cursor_shape != CursorShape::Hidden && blink_on {
        seq![
            Mark {
                line: if s.cursor_line > 0 {
                    s.cursor_line
                } else {
                    0
                },
                col: s.cursor_col,
                width: 1,
                ink: Ink::Cursor(s.cursor_shape),
            },
        ]
    } else {
        Seq::empty()
    }
}

/// The lines through and under cells.
pub open spec fn decoration_marks(runs: Seq<DecorationRun>) -> Seq<Mark>
    decreases runs.len(),
{
    if runs.len() == 0 {
        Seq::empty()
    } else {
        let d = runs.last();
        let mark = |ink: Ink|
            Mark { line: d.run.line, col: d.run.start_col, width: d.run.width, ink };
        decoration_marks(runs.drop_last()) + match d.kind {
            DecorationKind::Underline => seq![mark(Ink::Underline(d.run.color))],
            DecorationKind::DoubleUnderline => seq![
                mark(Ink::Underline(d.run.color)),
                mark(Ink::SecondUnderline(d.run.color)),
            ],
            DecorationKind::Strikeout => seq![mark(Ink::Strikeout(d.run.color))],
        }
    }
}

/// The lines under links.
pub open spec fn link_marks(runs: Seq<Run>) -> Seq<Mark> {
    runs.map_values(
        |r: Run| Mark { line: r.line, col: r.start_col, width: r.width, ink: Ink::Link },
    )
}

/// The matches that a pane shows: those of the search, in the active pane.
pub open spec fn matches_in(r: Renderer, pid: PaneId, offset: i32, rows: usize) -> Seq<MatchRow> {
    match r.find {
        Some(f) => if pid == r.ws.active_pane {
            match_rows(f.matches@, f.current, offset, rows)
        } else {
            Seq::empty()
        },
        None => Seq::empty(),
    }
}

/// `spans` are the parts of rows that the selection of a tab covers.
pub open spec fn spans_of(t: Tab, offset: i32, spans: Seq<RowSpan>) -> bool {
    match t.selection {
        Some(s) => shows(s, offset, t.cols, t.rows, spans),
        None => spans.len() == 0,
    }
}

/// Lines and columns are small enough to be counted.
pub open spec fn countable(r: Renderer, pid: PaneId, offset: i32) -> bool {
    let t = r.ws.tree().pane(pid).shown();
    &&& offset >= 0
    &&& t.selection matches Some(s) ==> {
        &&& s.ends().1.0 + offset < i32::MAX
        &&& s.anchor_col < usize::MAX
        &&& s.head_col < usize::MAX
    }
    &&& r.find matches Some(f) ==> forall|i: int|
        0 <= i < f.matches@.len() ==> (#[trigger] f.matches@[i]).2 < usize::MAX
            && f.matches@[i].1 <= f.matches@[i].2 && f.matches@[i].0 + offset <= i32::MAX
}

impl Renderer {
    /// `p` is what is painted of a pane: the cursor stands on the matches,
    /// these on the selection, and that on the backgrounds.
    pub open spec fn painted(
        self,
        pid: PaneId,
        s: Snapshot,
        offset: i32,
        blink_on: bool,
        p: PanePaint,
    ) -> bool {
        let t = self.ws.tree().pane(pid).shown();
        &&& exists|spans: Seq<RowSpan>|
            {
                &&& #[trigger] spans_of(t, offset, spans)
                &&& p.below@ == background_marks(s.backgrounds@) + selection_marks(spans)
                    + match_marks(matches_in(self, pid, offset, t.rows)) + cursor_marks(s, blink_on)
            }
        &&& p.above@ == decoration_marks(s.decorations@) + link_marks(s.links@)
    }

    /// What is painted of a pane that shows a terminal, scrolled back by
    /// `offset` lines.
    pub fn paint_pane(&self, pid: PaneId, s: &Snapshot, offset: i32, blink_on: bool) -> (p:
        PanePaint)
        requires
            self.wf(),
            self.ws.tree().has(pid),
            countable(*self, pid, offset),
        ensures
            self.painted(pid, *s, offset, blink_on, p),
    {
        let mut below: Vec<Mark> = Vec::new();
        let mut above: Vec<Mark> = Vec::new();
        let ghost t = self.ws.tree().pane(pid).shown();
        paint_backgrounds(&s.backgrounds, &mut below);
        let ghost mut spans: Seq<RowSpan> = Seq::empty();
        if let Some(pane) = self.ws.root_ref().find(pid) {
            proof {
                self.ws.lemma_pane_wf(pid);
                lemma_pane_tabs_ok(self.ws, pid);
            }
            let tab = pane.active_tab_ref();
            if let Some(sel) = &tab.selection {
                let rows = selection_rows(sel, offset, tab.cols, tab.rows);
                paint_selection(&rows, &mut below);
                proof {
                    spans = rows@;
                }
            }
            assert(selection_marks(Seq::<RowSpan>::empty()) =~= Seq::empty());
            assert(below@ =~= background_marks(s.backgrounds@) + selection_marks(spans));
            if pid == self.ws.active_pane {
                if let Some(f) = &self.find {
                    let rows = find_rows(f, offset, tab.rows);
                    proof {
                        lemma_match_rows(f.matches@, f.current, offset, tab.rows);
                    }
                    paint_matches(&rows, &mut below);
                }
            }
        }
        assert(match_marks(Seq::<MatchRow>::empty()) =~= Seq::empty());
        assert(below@ =~= background_marks(s.backgrounds@) + selection_marks(spans) + match_marks(
            matches_in(*self, pid, offset, t.rows),
        ));
        if s.cursor_shape != CursorShape::Hidden && blink_on {
            below.push(
                Mark {
                    line: if s.cursor_line > 0 {
                        s.cursor_line
                    } else {
                        0
                    },
                    col: s.cursor_col,
                    width: 1,
                    ink: Ink::Cursor(s.cursor_shape),
                },
            );
        }
        paint_decorations(&s.decorations, &mut above);
        paint_links(&s.links, &mut above);
        proof {
            assert(spans_of(t, offset, spans));
            assert(below@ =~= background_marks(s.backgrounds@) + selection_marks(spans)
                + match_marks(matches_in(*self, pid, offset, t.rows)) + cursor_marks(
                *s,
                blink_on,
            ));
            assert(above@ =~= decoration_marks(s.decorations@) + link_marks(s.links@));
        }
        PanePaint { below, above }
    }
}

/// A match on screen covers at least one cell.
proof fn lemma_match_rows(
    ms: Seq<(i32, usize, usize)>,
    current: usize,
    offset: i32,
    rows: usize,
)
    requires
        forall|i: int|
            0 <= i < ms.len() ==> (#[trigger] ms[i]).2 < usize::MAX && ms[i].1 <= ms[i].2,
    ensures
        forall|i: int|
            0 <= i < match_rows(ms, current, offset, rows).len() ==> (#[trigger] match_rows(
                ms,
                current,
                offset,
                rows,
            )[i]).start < match_rows(ms, current, offset, rows)[i].end,
    decreases ms.len(),
{
    if ms.len() > 0 {
        let rest = ms.drop_last();
        assert forall|i: int| 0 <= i < rest.len() implies (#[trigger] rest[i]).2 < usize::MAX
            && rest[i].1 <= rest[i].2 by {
            assert(rest[i] == ms[i]);
        }
        lemma_match_rows(rest, current, offset, rows);
        assert(ms[ms.len() - 1].1 <= ms[ms.len() - 1].2);
        let head = match_rows(rest, current, offset, rows);
        let all = match_rows(ms, current, offset, rows);
        assert forall|i: int| 0 <= i < all.len() implies (#[trigger] all[i]).start < all[i].end by {
            if i < head.len() {
                assert(head[i].start < head[i].end);
                assert(all[i] == head[i]);
            }
        }
    }
}

fn paint_backgrounds(runs: &Vec<Run>, out: &mut Vec<Mark>)
    ensures
        final(out)@ == old(out)@ + background_marks(runs@),
{
    let ghost had = out@;
    let ghost want = background_marks(runs@);
    let mut i: usize = 0;
    assert(had + want.take(0) =~= had);
    while i < runs.len()
        invariant
            i <= runs@.len(),
            want == background_marks(runs@),
            out@ == had + want.take(i as int),
        decreases runs.len() - i,
    {
        let r = runs[i];
        out.push(
            Mark {
                line: r.line,
                col: r.start_col,
                width: r.width,
                ink: Ink::Background(r.color),
            },
        );
        i = i + 1;
        assert(out@ =~= had + want.take(i as int));
    }
    assert(want.take(want.len() as int) =~= want);
}

fn paint_selection(spans: &Vec<RowSpan>, out: &mut Vec<Mark>)
    requires
        forall|i: int| 0 <= i < spans@.len() ==> (#[trigger] spans@[i]).start <= spans@[i].end,
    ensures
        final(out)@ == old(out)@ + selection_marks(spans@),
{
    let ghost had = out@;
    let ghost want = selection_marks(spans@);
    let mut i: usize = 0;
    assert(had + want.take(0) =~= had);
    while i < spans.len()
        invariant
            i <= spans@.len(),
            forall|i: int| 0 <= i < spans@.len() ==> (#[trigger] spans@[i]).start <= spans@[i].end,
            want == selection_marks(spans@),
            out@ == had + want.take(i as int),
        decreases spans.len() - i,
    {
        let s = spans[i];
        out.push(
            Mark { line: s.row, col: s.start, width: s.end - s.start, ink: Ink::Selection },
        );
        i = i + 1;
        assert(out@ =~= had + want.take(i as int));
    }
    assert(want.take(want.len() as int) =~= want);
}

fn paint_matches(ms: &Vec<MatchRow>, out: &mut Vec<Mark>)
    requires
        forall|i: int| 0 <= i < ms@.len() ==> (#[trigger] ms@[i]).start <= ms@[i].end,
    ensures
        final(out)@ == old(out)@ + match_marks(ms@),
{
    let ghost had = out@;
    let ghost want = match_marks(ms@);
    let mut i: usize = 0;
    assert(had + want.take(0) =~= had);
    while i < ms.len()
        invariant
            i <= ms@.len(),
            forall|i: int| 0 <= i < ms@.len() ==> (#[trigger] ms@[i]).start <= ms@[i].end,
            want == match_marks(ms@),
            out@ == had + want.take(i as int),
        decreases ms.len() - i,
    {
        let m = ms[i];
        out.push(
            Mark {
                line: m.row,
                col: m.start,
                width: m.end - m.start,
                ink: if m.current {
                    Ink::CurrentMatch
                } else {
                    Ink::Match
                },
            },
        );
        i = i + 1;
        assert(out@ =~= had + want.take(i as int));
    }
    assert(want.take(want.len() as int) =~= want);
}

fn paint_decorations(runs: &Vec<DecorationRun>, out: &mut Vec<Mark>)
    ensures
        final(out)@ == old(out)@ + decoration_marks(runs@),
{
    let ghost had = out@;
    let mut i: usize = 0;
    assert(had + decoration_marks(runs@.take(0)) =~= had);
    while i < runs.len()
        invariant
            i <= runs@.len(),
            out@ == had + decoration_marks(runs@.take(i as int)),
        decreases runs.len() - i,
    {
        let d = runs[i];
        assert(runs@.take(i + 1).drop_last() =~= runs@.take(i as int));
        let line = d.run.line;
        let col = d.run.start_col;
        let width = d.run.width;
        match d.kind {
            DecorationKind::Underline => {
                out.push(Mark { line, col, width, ink: Ink::Underline(d.run.color) });
            },
            DecorationKind::DoubleUnderline => {
                out.push(Mark { line, col, width, ink: Ink::Underline(d.run.color) });
                out.push(Mark { line, col, width, ink: Ink::SecondUnderline(d.run.color) });
            },
            DecorationKind::Strikeout => {
                out.push(Mark { line, col, width, ink: Ink::Strikeout(d.run.color) });
            },
        }
        i = i + 1;
        assert(out@ =~= had + decoration_marks(runs@.take(i as int)));
    }
    assert(runs@.take(runs@.len() as int) =~= runs@);
}

fn paint_links(runs: &Vec<Run>, out: &mut Vec<Mark>)
    ensures
        final(out)@ == old(out)@ + link_marks(runs@),
{
    let ghost had = out@;
    let ghost want = link_marks(runs@);
    let mut i: usize = 0;
    assert(had + want.take(0) =~= had);
    while i < runs.len()
        invariant
            i <= runs@.len(),
            want == link_marks(runs@),
            out@ == had + want.take(i as int),
        decreases runs.len() - i,
    {
        let r = runs[i];
        out.push(Mark { line: r.line, col: r.start_col, width: r.width, ink: Ink::Link });
        i = i + 1;
        assert(out@ =~= had + want.take(i as int));
    }
    assert(want.take(want.len() as int) =~= want);
}

/// The cursor is painted over everything else under the text.
pub proof fn law_cursor_on_top(
    r: Renderer,
    pid: PaneId,
    s: Snapshot,
    offset: i32,
    p: PanePaint,
    i: int,
)
    requires
        r.painted(pid, s, offset, true, p),
        s.cursor_shape != CursorShape::Hidden,
        0 <= i < p.below@.len() - 1,
    ensures
        p.below@.last().ink is Cursor,
        !(p.below@[i].ink is Cursor),
{
    let t = r.ws.tree().pane(pid).shown();
    let spans = choose|spans: Seq<RowSpan>|
        {
            &&& #[trigger] spans_of(t, offset, spans)
            &&& p.below@ == background_marks(s.backgrounds@) + selection_marks(spans) + match_marks(
                matches_in(r, pid, offset, t.rows),
            ) + cursor_marks(s, true)
        };
    let a = background_marks(s.backgrounds@);
    let b = selection_marks(spans);
    let c = match_marks(matches_in(r, pid, offset, t.rows));
    if i < a.len() {
        assert(p.below@[i] == a[i]);
    } else if i < a.len() + b.len() {
        assert(p.below@[i] == b[i - a.len()]);
    } else {
        assert(p.below@[i] == c[i - a.len() - b.len()]);
    }
}

} // verus!

//! What can be seen of a terminal pane: the cursor in its cell, the selection
//! on the cells that are selected, matches where they were found, and each
//! decoration on its own cells.

use crate::find::{match_rows, Match, MatchRow};
use crate::paint::{
    background_marks, cursor_marks, decoration_marks, link_marks, match_marks, matches_in,
    selection_marks, spans_of, CursorShape, DecorationKind, DecorationRun, Ink, Mark, PanePaint,
    Snapshot,
};
use crate::renderer::Renderer;
use crate::selection::{RowSpan, Selection};
use crate::tree::PaneId;
use vstd::prelude::*;

verus! {

/// A mark lies on the cell in column `col` of row `row`.
pub open spec fn covers(m: Mark, row: int, col: int) -> bool {
    m.line == row && m.col <= col < m.col + m.width
}

/// A cursor that is to be seen is painted last, in the terminal's own cursor
/// cell and in its shape; one that stands above the viewport is painted in the
/// first row.
pub proof fn law_cursor_is_in_its_cell(
    r: Renderer,
    pid: PaneId,
    s: Snapshot,
    offset: i32,
    p: PanePaint,
)
    requires
        r.painted(pid, s, offset, true, p),
        s.cursor_shape != CursorShape::Hidden,
    ensures
        p.below@.len() > 0,
        p.below@.last().ink == Ink::Cursor(s.cursor_shape),
        s.cursor_line >= 0 ==> p.below@.last().line == s.cursor_line,
        s.cursor_line < 0 ==> p.below@.last().line == 0,
        p.below@.last().col == s.cursor_col,
        p.below@.last().width == 1,
{
}

/// A cursor that is hidden, or in the dark half of its blinking, is not painted.
pub proof fn law_no_cursor_when_dark(
    r: Renderer,
    pid: PaneId,
    s: Snapshot,
    offset: i32,
    blink_on: bool,
    p: PanePaint,
    i: int,
)
    requires
        r.painted(pid, s, offset, blink_on, p),
        s.cursor_shape == CursorShape::Hidden || !blink_on,
        0 <= i < p.below@.len(),
    ensures
        !(p.below@[i].ink is Cursor),
{
    let spans = layers(r, pid, s, offset, blink_on, p);
    let a = background_marks(s.backgrounds@);
    let b = selection_marks(spans);
    let t = r.ws.tree().pane(pid).shown();
    let c = match_marks(matches_in(r, pid, offset, t.rows));
    if i < a.len() {
        assert(p.below@[i] == a[i]);
    } else if i < a.len() + b.len() {
        assert(p.below@[i] == b[i - a.len()]);
    } else {
        assert(p.below@[i] == c[i - a.len() - b.len()]);
    }
}

proof fn layers(
    r: Renderer,
    pid: PaneId,
    s: Snapshot,
    offset: i32,
    blink_on: bool,
    p: PanePaint,
) -> (spans: Seq<RowSpan>)
    requires
        r.painted(pid, s, offset, blink_on, p),
    ensures
        ({
            let t = r.ws.tree().pane(pid).shown();
            &&& spans_of(t, offset, spans)
            &&& p.below@ == background_marks(s.backgrounds@) + selection_marks(spans) + match_marks(
                matches_in(r, pid, offset, t.rows),
            ) + cursor_marks(s, blink_on)
        }),
{
    let t = r.ws.tree().pane(pid).shown();
    choose|spans: Seq<RowSpan>|
        {
            &&& #[trigger] spans_of(t, offset, spans)
            &&& p.below@ == background_marks(s.backgrounds@) + selection_marks(spans) + match_marks(
                matches_in(r, pid, offset, t.rows),
            ) + cursor_marks(s, blink_on)
        }
}

/// Backgrounds come first, each on its own cells and in its own colour.
pub proof fn law_backgrounds_are_painted(
    r: Renderer,
    pid: PaneId,
    s: Snapshot,
    offset: i32,
    blink_on: bool,
    p: PanePaint,
    i: int,
)
    requires
        r.painted(pid, s, offset, blink_on, p),
        0 <= i < s.backgrounds@.len(),
    ensures
        i < p.below@.len(),
        p.below@[i].line == s.backgrounds@[i].line,
        p.below@[i].col == s.backgrounds@[i].start_col,
        p.below@[i].width == s.backgrounds@[i].width,
        p.below@[i].ink == Ink::Background(s.backgrounds@[i].color),
{
    let spans = layers(r, pid, s, offset, blink_on, p);
    assert(p.below@[i] == background_marks(s.backgrounds@)[i]);
}

/// The cell in column `col` of absolute line `line` is selected: the two ends
/// differ, and it stands between them in reading order, or is one of them.
pub open spec fn selected(sel: Selection, line: int, col: int) -> bool {
    let a = (sel.anchor_line as int, sel.anchor_col as int);
    let h = (sel.head_line as int, sel.head_col as int);
    let after = |x: (int, int)| x.0 < line || (x.0 == line && x.1 <= col);
    let before = |x: (int, int)| line < x.0 || (x.0 == line && col <= x.1);
    a != h && ((after(a) && before(h)) || (after(h) && before(a)))
}

/// A cell of the viewport is highlighted exactly when it is selected.
pub proof fn law_selected_cells_are_marked(
    r: Renderer,
    pid: PaneId,
    s: Snapshot,
    offset: i32,
    blink_on: bool,
    p: PanePaint,
    row: int,
    col: int,
)
    requires
        r.painted(pid, s, offset, blink_on, p),
        r.ws.tree().pane(pid).shown().selection is Some,
        0 <= row < r.ws.tree().pane(pid).shown().rows,
        0 <= col < r.ws.tree().pane(pid).shown().cols,
    ensures
        selected(r.ws.tree().pane(pid).shown().selection->0, row - offset, col) <==> exists|i: int|
            0 <= i < p.below@.len() && (#[trigger] p.below@[i]).ink is Selection && covers(
                p.below@[i],
                row,
                col,
            ),
{
    let t = r.ws.tree().pane(pid).shown();
    let sel = t.selection->0;
    let spans = layers(r, pid, s, offset, blink_on, p);
    let a = background_marks(s.backgrounds@);
    let b = selection_marks(spans);
    let c = match_marks(matches_in(r, pid, offset, t.rows));
    let line = row - offset;
    if selected(sel, line, col) {
        assert(sel.span(line, t.cols).0 <= col < sel.span(line, t.cols).1);
        assert(sel.on_row(row, offset as int, t.cols, t.rows));
        let k = choose|k: int| 0 <= k < spans.len() && (#[trigger] spans[k]).row == row;
        assert(sel.on_row(spans[k].row as int, offset as int, t.cols, t.rows));
        let i = a.len() + k;
        assert(p.below@[i] == b[k]);
        assert(covers(p.below@[i], row, col));
    }
    if exists|i: int|
        0 <= i < p.below@.len() && (#[trigger] p.below@[i]).ink is Selection && covers(
            p.below@[i],
            row,
            col,
        ) {
        let i = choose|i: int|
            0 <= i < p.below@.len() && (#[trigger] p.below@[i]).ink is Selection && covers(
                p.below@[i],
                row,
                col,
            );
        if i < a.len() {
            assert(p.below@[i] == a[i]);
        } else if i < a.len() + b.len() {
            let k = i - a.len();
            assert(p.below@[i] == b[k]);
            assert(sel.on_row(spans[k].row as int, offset as int, t.cols, t.rows));
            assert(selected(sel, line, col));
        } else if i < a.len() + b.len() + c.len() {
            assert(p.below@[i] == c[i - a.len() - b.len()]);
        }
    }
}

/// Without a selection nothing is highlighted as one.
pub proof fn law_no_selection_no_highlight(
    r: Renderer,
    pid: PaneId,
    s: Snapshot,
    offset: i32,
    blink_on: bool,
    p: PanePaint,
    i: int,
)
    requires
        r.painted(pid, s, offset, blink_on, p),
        r.ws.tree().pane(pid).shown().selection is None,
        0 <= i < p.below@.len(),
    ensures
        !(p.below@[i].ink is Selection),
{
    let t = r.ws.tree().pane(pid).shown();
    let spans = layers(r, pid, s, offset, blink_on, p);
    let a = background_marks(s.backgrounds@);
    let b = selection_marks(spans);
    let c = match_marks(matches_in(r, pid, offset, t.rows));
    if i < a.len() {
        assert(p.below@[i] == a[i]);
    } else if i < a.len() + c.len() {
        assert(p.below@[i] == c[i - a.len()]);
    }
}

proof fn lemma_match_shown(ms: Seq<Match>, current: usize, offset: i32, rows: usize, k: int)
    requires
        0 <= k < ms.len(),
        -1 <= ms[k].0 + offset < rows,
        ms[k].0 + offset <= i32::MAX,
    ensures
        exists|j: int|
            {
                &&& 0 <= j < match_rows(ms, current, offset, rows).len()
                &&& #[trigger] match_rows(ms, current, offset, rows)[j] == MatchRow {
                    row: (ms[k].0 + offset) as i32,
                    start: ms[k].1,
                    end: (ms[k].2 + 1) as usize,
                    current: k == current,
                }
            },
    decreases ms.len(),
{
    let rest = ms.drop_last();
    let all = match_rows(ms, current, offset, rows);
    let before = match_rows(rest, current, offset, rows);
    if k < rest.len() {
        lemma_match_shown(rest, current, offset, rows, k);
        let j = choose|j: int|
            {
                &&& 0 <= j < before.len()
                &&& #[trigger] before[j] == MatchRow {
                    row: (rest[k].0 + offset) as i32,
                    start: rest[k].1,
                    end: (rest[k].2 + 1) as usize,
                    current: k == current,
                }
            };
        assert(all[j] == before[j]);
    } else {
        assert(all[before.len() as int].row == (ms[k].0 + offset) as i32);
    }
}

proof fn lemma_match_from(ms: Seq<Match>, current: usize, offset: i32, rows: usize, j: int) -> (k:
    int)
    requires
        0 <= j < match_rows(ms, current, offset, rows).len(),
    ensures
        0 <= k < ms.len(),
        -1 <= ms[k].0 + offset < rows,
        match_rows(ms, current, offset, rows)[j] == (MatchRow {
            row: (ms[k].0 + offset) as i32,
            start: ms[k].1,
            end: (ms[k].2 + 1) as usize,
            current: k == current,
        }),
    decreases ms.len(),
{
    let rest = ms.drop_last();
    if j < match_rows(rest, current, offset, rows).len() {
        lemma_match_from(rest, current, offset, rows, j)
    } else {
        ms.len() - 1
    }
}

/// In the active pane every match that the viewport shows is highlighted from
/// its first column to its last, and the current one in its own way.
pub proof fn law_matches_are_marked(
    r: Renderer,
    s: Snapshot,
    offset: i32,
    blink_on: bool,
    p: PanePaint,
    k: int,
)
    requires
        r.painted(r.ws.active_pane, s, offset, blink_on, p),
        r.find is Some,
        0 <= k < r.find->0.matches@.len(),
        ({
            let m = r.find->0.matches@[k];
            let rows = r.ws.tree().pane(r.ws.active_pane).shown().rows;
            0 <= m.0 + offset < rows && m.0 + offset <= i32::MAX && m.1 <= m.2 < usize::MAX
        }),
    ensures
        exists|i: int|
            {
                let m = r.find->0.matches@[k];
                let x = #[trigger] p.below@[i];
                &&& 0 <= i < p.below@.len()
                &&& x.line == m.0 + offset
                &&& x.col == m.1
                &&& x.col + x.width == m.2 + 1
                &&& x.ink == if k == r.find->0.current {
                    Ink::CurrentMatch
                } else {
                    Ink::Match
                }
            },
{
    let pid = r.ws.active_pane;
    let t = r.ws.tree().pane(pid).shown();
    let f = r.find->0;
    let spans = layers(r, pid, s, offset, blink_on, p);
    let a = background_marks(s.backgrounds@);
    let b = selection_marks(spans);
    let ms = matches_in(r, pid, offset, t.rows);
    let c = match_marks(ms);
    lemma_match_shown(f.matches@, f.current, offset, t.rows, k);
    let j = choose|j: int|
        {
            &&& 0 <= j < ms.len()
            &&& #[trigger] ms[j] == MatchRow {
                row: (f.matches@[k].0 + offset) as i32,
                start: f.matches@[k].1,
                end: (f.matches@[k].2 + 1) as usize,
                current: k == f.current,
            }
        };
    let i = a.len() + b.len() + j;
    assert(p.below@[i] == c[j]);
}

/// What is highlighted as a match is one, in the active pane while a search is
/// on.
pub proof fn law_only_matches_are_marked(
    r: Renderer,
    pid: PaneId,
    s: Snapshot,
    offset: i32,
    blink_on: bool,
    p: PanePaint,
    i: int,
)
    requires
        r.painted(pid, s, offset, blink_on, p),
        0 <= i < p.below@.len(),
        p.below@[i].ink is Match || p.below@[i].ink is CurrentMatch,
    ensures
        pid == r.ws.active_pane,
        r.find is Some,
        exists|k: int|
            {
                &&& 0 <= k < r.find->0.matches@.len()
                &&& -1 <= (#[trigger] r.find->0.matches@[k]).0 + offset
                &&& p.below@[i].line == (r.find->0.matches@[k].0 + offset) as i32
                &&& p.below@[i].col == r.find->0.matches@[k].1
                &&& p.below@[i].ink is CurrentMatch <==> k == r.find->0.current
            },
{
    let t = r.ws.tree().pane(pid).shown();
    let spans = layers(r, pid, s, offset, blink_on, p);
    let a = background_marks(s.backgrounds@);
    let b = selection_marks(spans);
    let ms = matches_in(r, pid, offset, t.rows);
    let c = match_marks(ms);
    if i < a.len() {
        assert(p.below@[i] == a[i]);
    } else if i < a.len() + b.len() {
        assert(p.below@[i] == b[i - a.len()]);
    } else {
        let j = i - a.len() - b.len();
        if j < c.len() {
            assert(p.below@[i] == c[j]);
            let f = r.find->0;
            let k = lemma_match_from(f.matches@, f.current, offset, t.rows, j);
            assert(f.matches@[k].1 == p.below@[i].col);
        }
    }
}

/// What a decoration is painted with, from its upper line down to its lower.
pub open spec fn has_ink(kind: DecorationKind, color: u32, ink: Ink) -> bool {
    match kind {
        DecorationKind::Underline => ink == Ink::Underline(color),
        DecorationKind::DoubleUnderline => ink == Ink::Underline(color) || ink
            == Ink::SecondUnderline(color),
        DecorationKind::Strikeout => ink == Ink::Strikeout(color),
    }
}

proof fn lemma_decorated(runs: Seq<DecorationRun>, k: int, ink: Ink)
    requires
        0 <= k < runs.len(),
        has_ink(runs[k].kind, runs[k].run.color, ink),
    ensures
        exists|i: int|
            {
                let x = #[trigger] decoration_marks(runs)[i];
                &&& 0 <= i < decoration_marks(runs).len()
                &&& x.line == runs[k].run.line
                &&& x.col == runs[k].run.start_col
                &&& x.width == runs[k].run.width
                &&& x.ink == ink
            },
    decreases runs.len(),
{
    let rest = runs.drop_last();
    let all = decoration_marks(runs);
    let before = decoration_marks(rest);
    if k < rest.len() {
        lemma_decorated(rest, k, ink);
        let i = choose|i: int|
            {
                let x = #[trigger] before[i];
                &&& 0 <= i < before.len()
                &&& x.line == rest[k].run.line
                &&& x.col == rest[k].run.start_col
                &&& x.width == rest[k].run.width
                &&& x.ink == ink
            };
        assert(all[i] == before[i]);
    } else {
        let n = before.len() as int;
        if ink is SecondUnderline {
            assert(all[n + 1].ink == ink);
        } else {
            assert(all[n].ink == ink);
        }
    }
}

/// Every decoration is painted over the text, on its own cells: an underline
/// once, a double underline twice, a strikeout through the text.
pub proof fn law_decorations_are_painted(
    r: Renderer,
    pid: PaneId,
    s: Snapshot,
    offset: i32,
    blink_on: bool,
    p: PanePaint,
    k: int,
    ink: Ink,
)
    requires
        r.painted(pid, s, offset, blink_on, p),
        0 <= k < s.decorations@.len(),
        has_ink(s.decorations@[k].kind, s.decorations@[k].run.color, ink),
    ensures
        exists|i: int|
            {
                let d = s.decorations@[k].run;
                let x = #[trigger] p.above@[i];
                &&& 0 <= i < p.above@.len()
                &&& x.line == d.line
                &&& x.col == d.start_col
                &&& x.width == d.width
                &&& x.ink == ink
            },
{
    let all = decoration_marks(s.decorations@);
    lemma_decorated(s.decorations@, k, ink);
    let d = s.decorations@[k].run;
    let i = choose|i: int|
        {
            let x = #[trigger] all[i];
            &&& 0 <= i < all.len()
            &&& x.line == d.line
            &&& x.col == d.start_col
            &&& x.width == d.width
            &&& x.ink == ink
        };
    assert(p.above@[i] == all[i]);
}

/// Every link is underlined, on its own cells.
pub proof fn law_links_are_underlined(
    r: Renderer,
    pid: PaneId,
    s: Snapshot,
    offset: i32,
    blink_on: bool,
    p: PanePaint,
    k: int,
)
    requires
        r.painted(pid, s, offset, blink_on, p),
        0 <= k < s.links@.len(),
    ensures
        exists|i: int|
            {
                let x = #[trigger] p.above@[i];
                &&& 0 <= i < p.above@.len()
                &&& x.line == s.links@[k].line
                &&& x.col == s.links@[k].start_col
                &&& x.width == s.links@[k].width
                &&& x.ink is Link
            },
{
    let n = decoration_marks(s.decorations@).len() as int;
    assert(p.above@[n + k] == link_marks(s.links@)[k]);
}

/// How many lines decorations are drawn with.
pub open spec fn strokes(runs: Seq<DecorationRun>) -> nat
    decreases runs.len(),
{
    if runs.len() == 0 {
        0
    } else {
        strokes(runs.drop_last()) + (if runs.last().kind is DoubleUnderline {
            2nat
        } else {
            1
        })
    }
}

proof fn lemma_strokes(runs: Seq<DecorationRun>)
    ensures
        decoration_marks(runs).len() == strokes(runs),
    decreases runs.len(),
{
    if runs.len() > 0 {
        lemma_strokes(runs.drop_last());
    }
}

/// Over the text there are only decorations and links, as many lines as these
/// call for.
pub proof fn law_nothing_else_is_over_the_text(
    r: Renderer,
    pid: PaneId,
    s: Snapshot,
    offset: i32,
    blink_on: bool,
    p: PanePaint,
)
    requires
        r.painted(pid, s, offset, blink_on, p),
    ensures
        p.above@.len() == strokes(s.decorations@) + s.links@.len(),
{
    lemma_strokes(s.decorations@);
}

} // verus!

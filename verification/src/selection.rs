//! Selections: two ends in absolute grid lines, and the cells they cover on
//! screen.

use vstd::prelude::*;

verus! {

/// A cell position, in absolute grid lines.
pub type Cell = (i32, usize);

/// `a` stands before `b` in reading order, or is `b`.
pub open spec fn reads_before(a: Cell, b: Cell) -> bool {
    a.0 < b.0 || (a.0 == b.0 && a.1 <= b.1)
}

/// Selection coordinates are absolute lines (viewport row minus the current
/// display offset), so the selection tracks the underlying grid content as the
/// user scrolls.
#[derive(Clone, Copy, PartialEq, Eq, Structural, Debug)]
pub struct Selection {
    pub anchor_line: i32,
    pub anchor_col: usize,
    pub head_line: i32,
    pub head_col: usize,
}

impl Selection {
    pub open spec fn anchor(self) -> Cell {
        (self.anchor_line, self.anchor_col)
    }

    pub open spec fn head(self) -> Cell {
        (self.head_line, self.head_col)
    }

    pub fn from_anchor(line: i32, col: usize) -> (s: Self)
        ensures
            s.anchor() == (line, col),
            s.head() == (line, col),
    {
        Selection { anchor_line: line, anchor_col: col, head_line: line, head_col: col }
    }

    pub fn extend_to(&mut self, line: i32, col: usize)
        ensures
            final(self).anchor() == old(self).anchor(),
            final(self).head() == (line, col),
    {
        self.head_line = line;
        self.head_col = col;
    }

    /// The two ends in reading order.
    pub open spec fn ends(self) -> (Cell, Cell) {
        if reads_before(self.anchor(), self.head()) {
            (self.anchor(), self.head())
        } else {
            (self.head(), self.anchor())
        }
    }

    /// The two ends, start before end in reading order.
    pub fn normalized(&self) -> (r: (Cell, Cell))
        ensures
            r == self.ends(),
            reads_before(r.0, r.1),
    {
        let a: Cell = (self.anchor_line, self.anchor_col);
        let h: Cell = (self.head_line, self.head_col);
        if a.0 < h.0 || (a.0 == h.0 && a.1 <= h.1) {
            (a, h)
        } else {
            (h, a)
        }
    }

    pub fn is_empty(&self) -> (r: bool)
        ensures
            r == (self.anchor() == self.head()),
    {
        self.anchor_line == self.head_line && self.anchor_col == self.head_col
    }

    /// The columns of absolute line `line` that the selection covers in a grid
    /// of `cols` columns: from the first on, up to but not including the
    /// second.
    pub open spec fn span(self, line: int, cols: usize) -> (int, int) {
        let (s, e) = self.ends();
        let from = if line == s.0 {
            s.1 as int
        } else {
            0
        };
        let to = if line == e.0 {
            e.1 + 1
        } else {
            cols as int
        };
        (if from < cols { from } else { cols as int }, if to < cols { to } else { cols as int })
    }

    /// The row `row` of a viewport scrolled by `offset` shows part of the
    /// selection. Row `-1` counts, so that a highlight enters smoothly from the
    /// top during a scroll.
    pub open spec fn on_row(self, row: int, offset: int, cols: usize, rows: usize) -> bool {
        let line = row - offset;
        &&& self.anchor() != self.head()
        &&& -1 <= row < rows
        &&& self.ends().0.0 <= line <= self.ends().1.0
        &&& self.span(line, cols).0 < self.span(line, cols).1
    }
}

/// Part of one viewport row: the columns from `start` up to but not including
/// `end`.
#[derive(Clone, Copy, PartialEq, Eq, Structural, Debug)]
pub struct RowSpan {
    pub row: i32,
    pub start: usize,
    pub end: usize,
}

/// `out` are the rows of the viewport that show a selection, top to bottom,
/// each with the columns to highlight.
pub open spec fn shows(
    sel: Selection,
    offset: i32,
    cols: usize,
    rows: usize,
    out: Seq<RowSpan>,
) -> bool {
    &&& forall|i: int, j: int| 0 <= i < j < out.len() ==> out[i].row < out[j].row
    &&& forall|i: int|
        0 <= i < out.len() ==> {
            let r = #[trigger] out[i];
            &&& sel.on_row(r.row as int, offset as int, cols, rows)
            &&& (r.start as int, r.end as int) == sel.span(r.row - offset, cols)
        }
    &&& forall|row: int| #[trigger]
        sel.on_row(row, offset as int, cols, rows) ==> exists|i: int|
            0 <= i < out.len() && (#[trigger] out[i]).row == row
}

/// The rows of the viewport that show a selection, top to bottom, each with
/// the columns to highlight.
pub fn selection_rows(sel: &Selection, offset: i32, cols: usize, rows: usize) -> (out: Vec<RowSpan>)
    requires
        i32::MIN <= sel.ends().0.0 + offset,
        sel.ends().1.0 + offset < i32::MAX,
        sel.anchor_col < usize::MAX,
        sel.head_col < usize::MAX,
        rows <= i32::MAX,
    ensures
        shows(*sel, offset, cols, rows, out@),
{
    let mut out: Vec<RowSpan> = Vec::new();
    if sel.is_empty() {
        return out;
    }
    let (s, e) = sel.normalized();
    let first = s.0 + offset;
    let last = e.0 + offset;
    let mut row: i32 = if first < -1 {
        -1
    } else {
        first
    };
    while row <= last && row < rows as i32
        invariant
            s == sel.ends().0,
            e == sel.ends().1,
            sel.anchor() != sel.head(),
            first == s.0 + offset,
            last == e.0 + offset,
            last < i32::MAX,
            rows <= i32::MAX,
            s.1 < usize::MAX,
            e.1 < usize::MAX,
            -1 <= row,
            first <= row,
            forall|i: int, j: int| 0 <= i < j < out@.len() ==> out@[i].row < out@[j].row,
            forall|i: int|
                0 <= i < out@.len() ==> {
                    let r = #[trigger] out@[i];
                    &&& r.row < row
                    &&& sel.on_row(r.row as int, offset as int, cols, rows)
                    &&& (r.start as int, r.end as int) == sel.span(r.row - offset, cols)
                },
            forall|k: int| #[trigger]
                sel.on_row(k, offset as int, cols, rows) && k < row ==> exists|i: int|
                    0 <= i < out@.len() && (#[trigger] out@[i]).row == k,
        decreases last - row + 1,
    {
        let line = row - offset;
        let from: usize = if line == s.0 {
            s.1
        } else {
            0
        };
        let to: usize = if line == e.0 {
            e.1 + 1
        } else {
            cols
        };
        let start = if from < cols {
            from
        } else {
            cols
        };
        let end = if to < cols {
            to
        } else {
            cols
        };
        let ghost before = out@;
        if start < end {
            out.push(RowSpan { row, start, end });
            assert(out@[before.len() as int].row == row);
            assert forall|k: int| #[trigger]
                sel.on_row(k, offset as int, cols, rows) && k < row + 1 implies exists|i: int|
                0 <= i < out@.len() && (#[trigger] out@[i]).row == k by {
                if k < row {
                    let i = choose|i: int| 0 <= i < before.len() && (#[trigger] before[i]).row == k;
                    assert(out@[i].row == k);
                }
            }
        }
        row = row + 1;
    }
    out
}

} // verus!

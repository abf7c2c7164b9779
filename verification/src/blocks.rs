//! Blocks: one command with its output, as shell marks bracket it.

use crate::selection::Cell;
use vstd::prelude::*;

verus! {

/// A command with its output. Lines are counted from the start of the session.
pub struct Block {
    pub id: u32,
    pub exit_code: Option<i32>,
    pub prompt_line: Option<i32>,
    pub command_end_line: Option<i32>,
    pub output_start_line: Option<i32>,
    pub output_end_line: Option<i32>,
    pub tags: Vec<String>,
}

/// A block as it is told to a client.
pub struct BlockInfo {
    pub id: u32,
    pub exit_code: Option<i32>,
    pub prompt_line: Option<i32>,
    pub command_end_line: Option<i32>,
    pub output_start_line: Option<i32>,
    pub output_end_line: Option<i32>,
    pub tags: Vec<String>,
}

/// `info` tells what `b` is.
pub open spec fn tells(info: BlockInfo, b: Block) -> bool {
    &&& info.id == b.id
    &&& info.exit_code == b.exit_code
    &&& info.prompt_line == b.prompt_line
    &&& info.command_end_line == b.command_end_line
    &&& info.output_start_line == b.output_start_line
    &&& info.output_end_line == b.output_end_line
    &&& info.tags@ == b.tags@
}

/// A copy of a list of strings.
pub fn copy_strings(v: &Vec<String>) -> (r: Vec<String>)
    ensures
        r@ == v@,
{
    let mut r: Vec<String> = Vec::new();
    let mut i: usize = 0;
    while i < v.len()
        invariant
            i <= v@.len(),
            r@ == v@.take(i as int),
        decreases v.len() - i,
    {
        r.push(v[i].clone());
        i = i + 1;
        assert(r@ =~= v@.take(i as int));
    }
    assert(v@.take(v@.len() as int) =~= v@);
    r
}

pub fn block_to_info(b: &Block) -> (info: BlockInfo)
    ensures
        tells(info, *b),
{
    BlockInfo {
        id: b.id,
        exit_code: b.exit_code,
        prompt_line: b.prompt_line,
        command_end_line: b.command_end_line,
        output_start_line: b.output_start_line,
        output_end_line: b.output_end_line,
        tags: copy_strings(&b.tags),
    }
}

/// The first of two options that is set.
pub open spec fn either(a: Option<i32>, b: Option<i32>) -> Option<i32> {
    match a {
        Some(x) => Some(x),
        None => b,
    }
}

fn first_set(a: Option<i32>, b: Option<i32>) -> (r: Option<i32>)
    ensures
        r == either(a, b),
{
    match a {
        Some(x) => Some(x),
        None => b,
    }
}

/// A range of whole rows, from the start of the first to the end of the last.
pub type Rows = (Cell, Cell);

/// The rows from `start` to `end` of the session, in the terminal's own lines,
/// when `history` lines have scrolled out.
pub open spec fn rows_of(start: int, end: int, history: int, cols: usize) -> Rows {
    (
        ((start - history) as i32, 0),
        (
            (end - history) as i32,
            if cols > 0 {
                (cols - 1) as usize
            } else {
                0
            },
        ),
    )
}

/// A line of the session that the terminal can still name when `history`
/// lines have scrolled out.
pub open spec fn nameable(line: Option<i32>, history: i32) -> bool {
    line matches Some(l) ==> l - history >= i32::MIN
}

impl Block {
    /// The block's lines can be named in the terminal's own terms.
    pub open spec fn in_reach(self, history: i32) -> bool {
        &&& history >= 0
        &&& nameable(self.prompt_line, history)
        &&& nameable(self.command_end_line, history)
        &&& nameable(self.output_start_line, history)
        &&& nameable(self.output_end_line, history)
    }

    /// The rows that hold the block's command: from its prompt to the mark
    /// that ends the command, or else to where output starts. `None` if the
    /// marks are missing or the wrong way round.
    pub open spec fn command_rows(self, history: i32, cols: usize) -> Option<Rows> {
        match (self.prompt_line, either(self.command_end_line, self.output_start_line)) {
            (Some(start), Some(end)) => if end < start {
                None
            } else {
                Some(rows_of(start as int, end as int, history as int, cols))
            },
            _ => None,
        }
    }

    /// The block has ended and left no row of output.
    pub open spec fn silent(self) -> bool {
        self.output_start_line matches Some(start) && self.output_end_line matches Some(end)
            && end <= start
    }

    /// The rows that hold the block's output. The row that the cursor moved to
    /// after the last line of output belongs to whatever comes next.
    pub open spec fn output_rows(self, history: i32, cols: usize) -> Option<Rows> {
        match (self.output_start_line, self.output_end_line) {
            (Some(start), Some(end)) => if end <= start {
                None
            } else {
                Some(rows_of(start as int, end - 1, history as int, cols))
            },
            _ => None,
        }
    }
}

fn rows_at(start: i32, end: i32, history: i32, cols: usize) -> (r: Rows)
    requires
        history >= 0,
        start - history >= i32::MIN,
        end - history >= i32::MIN,
    ensures
        r == rows_of(start as int, end as int, history as int, cols),
{
    let last = if cols > 0 {
        cols - 1
    } else {
        0
    };
    ((start - history, 0), (end - history, last))
}

/// `extract` can be asked for these rows, if there are any.
pub open spec fn can_extract<F: Fn(Cell, Cell) -> String>(rows: Option<Rows>, extract: F) -> bool {
    rows matches Some(r) ==> call_requires(extract, (r.0, r.1))
}

/// Extract the command text of a block. `None` if the block lacks the marks
/// needed to bracket a range.
pub fn block_command_text<F: Fn(Cell, Cell) -> String>(
    block: &Block,
    history: i32,
    cols: usize,
    extract: &F,
) -> (r: Option<String>)
    requires
        block.in_reach(history),
        can_extract(block.command_rows(history, cols), *extract),
    ensures
        match block.command_rows(history, cols) {
            Some(rows) => r matches Some(s) && call_ensures(*extract, (rows.0, rows.1), s),
            None => r is None,
        },
{
    let start = match block.prompt_line {
        Some(l) => l,
        None => return None,
    };
    let end = match first_set(block.command_end_line, block.output_start_line) {
        Some(l) => l,
        None => return None,
    };
    if end < start {
        return None;
    }
    let rows = rows_at(start, end, history, cols);
    Some(extract(rows.0, rows.1))
}

/// Extract the output text of a closed block: `None` while it is open, empty
/// where the command produced no output rows.
pub fn block_output_text<F: Fn(Cell, Cell) -> String>(
    block: &Block,
    history: i32,
    cols: usize,
    extract: &F,
) -> (r: Option<String>)
    requires
        block.in_reach(history),
        !block.silent() ==> can_extract(block.output_rows(history, cols), *extract),
    ensures
        block.silent() ==> (r matches Some(s) && s@.len() == 0),
        !block.silent() ==> match block.output_rows(history, cols) {
            Some(rows) => r matches Some(s) && call_ensures(*extract, (rows.0, rows.1), s),
            None => r is None,
        },
{
    let start = match block.output_start_line {
        Some(l) => l,
        None => return None,
    };
    let end = match block.output_end_line {
        Some(l) => l,
        None => return None,
    };
    if end <= start {
        return Some(String::new());
    }
    let rows = rows_at(start, end - 1, history, cols);
    Some(extract(rows.0, rows.1))
}

/// The rows that a block claims: its first one, its last one of its own, and
/// the last one that a mark named.
pub open spec fn claim(b: Block) -> Option<(int, int, int)> {
    match (
        either(b.prompt_line, b.output_start_line),
        either(either(b.output_end_line, b.command_end_line), b.prompt_line),
    ) {
        (Some(start), Some(raw)) => Some(
            (
                start as int,
                if raw > start {
                    raw - 1
                } else {
                    raw as int
                },
                raw as int,
            ),
        ),
        _ => None,
    }
}

/// Line `at` of the session is among the rows of `b`: its own rows, or, where
/// `raw`, those up to the last mark.
pub open spec fn claims(b: Block, at: int, raw: bool) -> bool {
    claim(b) matches Some(c) && c.0 <= at <= (if raw {
        c.2
    } else {
        c.1
    })
}

/// The position of the first block that claims line `at`; the number of blocks
/// where none does.
pub open spec fn claimant(bs: Seq<Block>, at: int, raw: bool) -> int
    decreases bs.len(),
{
    if bs.len() == 0 || claims(bs[0], at, raw) {
        0
    } else {
        1 + claimant(bs.drop_first(), at, raw)
    }
}

/// The rows of the block that line `at` belongs to: first of all one that has
/// it among its own rows, and failing that one whose last mark stands there.
pub open spec fn block_rows(bs: Seq<Block>, at: int, history: i32, cols: usize) -> Option<Rows> {
    let own = claimant(bs, at, false);
    let raw = claimant(bs, at, true);
    if 0 <= own < bs.len() {
        let c = claim(bs[own])->0;
        Some(rows_of(c.0, c.1, history as int, cols))
    } else if 0 <= raw < bs.len() {
        let c = claim(bs[raw])->0;
        Some(rows_of(c.0, c.1, history as int, cols))
    } else {
        None
    }
}

fn claim_of(b: &Block) -> (r: Option<(i32, i32, i32)>)
    ensures
        match r {
            Some(c) => claim(*b) == Some((c.0 as int, c.1 as int, c.2 as int)),
            None => claim(*b) is None,
        },
{
    let start = match first_set(b.prompt_line, b.output_start_line) {
        Some(l) => l,
        None => return None,
    };
    let raw = match first_set(first_set(b.output_end_line, b.command_end_line), b.prompt_line) {
        Some(l) => l,
        None => return None,
    };
    let end = if raw > start {
        raw - 1
    } else {
        raw
    };
    Some((start, end, raw))
}

fn find_claimant(bs: &Vec<Block>, at: i32, raw: bool) -> (r: Option<(i32, i32)>)
    ensures
        match r {
            Some(c) => {
                let k = claimant(bs@, at as int, raw);
                &&& 0 <= k < bs@.len()
                &&& claim(bs@[k]) matches Some(x) && x.0 == c.0 && x.1 == c.1
            },
            None => claimant(bs@, at as int, raw) >= bs@.len(),
        },
{
    let mut i: usize = 0;
    assert(bs@.skip(0) =~= bs@);
    while i < bs.len()
        invariant
            i <= bs@.len(),
            claimant(bs@, at as int, raw) == i + claimant(bs@.skip(i as int), at as int, raw),
        decreases bs.len() - i,
    {
        assert(bs@.skip(i as int)[0] == bs@[i as int]);
        if let Some(c) = claim_of(&bs[i]) {
            let last = if raw {
                c.2
            } else {
                c.1
            };
            if c.0 <= at && at <= last {
                return Some((c.0, c.1));
            }
        }
        assert(bs@.skip(i as int).drop_first() =~= bs@.skip(i + 1));
        i = i + 1;
    }
    None
}

/// Look up the block whose rows contain a clicked line, and give its rows,
/// ready to be selected. A click on a prompt finds that prompt's block rather
/// than the one before, which ended there.
pub fn block_at_selection_line(
    bs: &Vec<Block>,
    sel_line: i32,
    history: i32,
    cols: usize,
) -> (r: Option<Rows>)
    requires
        sel_line + history <= i32::MAX,
        history >= 0,
        forall|i: int| 0 <= i < bs@.len() ==> (#[trigger] bs@[i]).in_reach(history),
    ensures
        r == block_rows(bs@, sel_line + history, history, cols),
{
    let at = sel_line + history;
    match find_claimant(bs, at, false) {
        Some(c) => {
            proof {
                let k = claimant(bs@, at as int, false);
                assert(bs@[k].in_reach(history));
                lemma_claim_in_reach(bs@[k], history);
            }
            Some(rows_at(c.0, c.1, history, cols))
        },
        None => match find_claimant(bs, at, true) {
            Some(c) => {
                proof {
                    let k = claimant(bs@, at as int, true);
                    assert(bs@[k].in_reach(history));
                    lemma_claim_in_reach(bs@[k], history);
                }
                Some(rows_at(c.0, c.1, history, cols))
            },
            None => None,
        },
    }
}

proof fn lemma_claim_in_reach(b: Block, history: i32)
    requires
        b.in_reach(history),
        claim(b) is Some,
    ensures
        claim(b) matches Some(c) && c.0 - history >= i32::MIN && c.1 - history >= i32::MIN,
{
}

/// The row of a block's own that a click falls on belongs to that block, even
/// where the block before claims it too.
pub proof fn law_click_prefers_own_rows(bs: Seq<Block>, at: int, k: int)
    requires
        0 <= k < bs.len(),
        claims(bs[k], at, false),
    ensures
        claimant(bs, at, false) <= k,
        claims(bs[claimant(bs, at, false)], at, false),
    decreases k,
{
    if !claims(bs[0], at, false) {
        law_click_prefers_own_rows(bs.drop_first(), at, k - 1);
        let j = claimant(bs.drop_first(), at, false);
        lemma_claimant_bound(bs.drop_first(), at, false);
        assert(bs.drop_first()[j] == bs[j + 1]);
    }
}

proof fn lemma_claimant_bound(bs: Seq<Block>, at: int, raw: bool)
    ensures
        0 <= claimant(bs, at, raw) <= bs.len(),
    decreases bs.len(),
{
    if bs.len() > 0 {
        lemma_claimant_bound(bs.drop_first(), at, raw);
    }
}

/// What a block's label in the gutter looks like.
#[derive(Copy, Clone, PartialEq, Eq, Structural, Debug)]
pub enum LabelStyle {
    /// The shared cursor is on the block.
    Cursor,
    Tagged,
    Plain,
}

/// A block's label on screen.
#[derive(Copy, Clone, PartialEq, Eq, Structural, Debug)]
pub struct BlockLabel {
    pub index: usize,
    pub row: i32,
    pub style: LabelStyle,
}

/// What a label needs to know of its block: the line it is anchored to, if
/// any, and whether the block is tagged.
#[derive(Copy, Clone, PartialEq, Eq, Structural, Debug)]
pub struct LabelBlock {
    pub id: u32,
    pub anchor: Option<i32>,
    pub tagged: bool,
}

/// The viewport row of a label: session line `anchor`, when `history` lines
/// have scrolled out and the view is scrolled back by `offset`.
pub open spec fn label_row(anchor: int, history: int, offset: int) -> int {
    anchor - history + offset
}

pub open spec fn label_style(b: LabelBlock, cursor: Option<u32>) -> LabelStyle {
    if cursor == Some(b.id) {
        LabelStyle::Cursor
    } else if b.tagged {
        LabelStyle::Tagged
    } else {
        LabelStyle::Plain
    }
}

/// The labels of those blocks that are on screen, in order.
pub open spec fn labels(
    bs: Seq<LabelBlock>,
    cursor: Option<u32>,
    history: i32,
    offset: i32,
    rows: i32,
) -> Seq<BlockLabel>
    decreases bs.len(),
{
    if bs.len() == 0 {
        Seq::empty()
    } else {
        let before = labels(bs.drop_last(), cursor, history, offset, rows);
        let b = bs.last();
        match b.anchor {
            Some(a) => {
                let row = label_row(a as int, history as int, offset as int);
                if 0 <= row < rows {
                    before.push(
                        BlockLabel {
                            index: (bs.len() - 1) as usize,
                            row: row as i32,
                            style: label_style(b, cursor),
                        },
                    )
                } else {
                    before
                }
            },
            None => before,
        }
    }
}

/// The labels to draw in a pane's gutter.
pub fn block_labels(
    bs: &Vec<LabelBlock>,
    cursor: Option<u32>,
    history: i32,
    offset: i32,
    rows: i32,
) -> (out: Vec<BlockLabel>)
    requires
        history >= 0,
        offset >= 0,
        forall|i: int|
            0 <= i < bs@.len() ==> ((#[trigger] bs@[i]).anchor matches Some(a) ==> {
                &&& a - history >= i32::MIN
                &&& a - history + offset <= i32::MAX
            }),
    ensures
        out@ == labels(bs@, cursor, history, offset, rows),
{
    let mut out: Vec<BlockLabel> = Vec::new();
    let mut i: usize = 0;
    while i < bs.len()
        invariant
            history >= 0,
            offset >= 0,
            forall|i: int|
                0 <= i < bs@.len() ==> ((#[trigger] bs@[i]).anchor matches Some(a) ==> {
                    &&& a - history >= i32::MIN
                    &&& a - history + offset <= i32::MAX
                }),
            i <= bs@.len(),
            out@ == labels(bs@.take(i as int), cursor, history, offset, rows),
        decreases bs.len() - i,
    {
        let b = bs[i];
        proof {
            assert(bs@.take(i + 1).drop_last() =~= bs@.take(i as int));
            assert(bs@.take(i + 1).last() == b);
        }
        if let Some(a) = b.anchor {
            let row = a - history + offset;
            if row >= 0 && row < rows {
                let on_cursor = match cursor {
                    Some(c) => c == b.id,
                    None => false,
                };
                let style = if on_cursor {
                    LabelStyle::Cursor
                } else if b.tagged {
                    LabelStyle::Tagged
                } else {
                    LabelStyle::Plain
                };
                out.push(BlockLabel { index: i, row, style });
            }
        }
        i = i + 1;
    }
    assert(bs@.take(bs@.len() as int) =~= bs@);
    out
}

} // verus!

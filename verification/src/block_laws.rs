//! What a command block names: which rows are its command and which its output,
//! which block a row belongs to, and what stands in the gutter beside it.

use crate::blocks::{block_rows, claimant, claims, labels, Block, LabelBlock, LabelStyle};
use crate::replies::{block_pos, from_block, mark_events, MarkEffect};
use crate::wire::EventPayload;
use vstd::prelude::*;

verus! {

/// A block's command reaches from its prompt to where it was sent off, over
/// whole rows; its output from where that began to the row before where it
/// ended. A block that has none of the one or of the other has no such rows.
pub proof fn law_block_has_its_rows(b: Block, history: i32, cols: usize)
    requires
        b.in_reach(history),
        cols > 0,
    ensures
        b.prompt_line is Some && b.command_end_line is Some && b.command_end_line->0
            >= b.prompt_line->0 ==> b.command_rows(history, cols) == Some(
            (
                ((b.prompt_line->0 - history) as i32, 0usize),
                ((b.command_end_line->0 - history) as i32, (cols - 1) as usize),
            ),
        ),
        b.prompt_line is Some && b.command_end_line is None && b.output_start_line is Some
            && b.output_start_line->0 >= b.prompt_line->0 ==> b.command_rows(history, cols) == Some(
            (
                ((b.prompt_line->0 - history) as i32, 0usize),
                ((b.output_start_line->0 - history) as i32, (cols - 1) as usize),
            ),
        ),
        b.prompt_line is None ==> b.command_rows(history, cols) is None,
        b.output_start_line is Some && b.output_end_line is Some && b.output_end_line->0
            > b.output_start_line->0 ==> b.output_rows(history, cols) == Some(
            (
                ((b.output_start_line->0 - history) as i32, 0usize),
                ((b.output_end_line->0 - 1 - history) as i32, (cols - 1) as usize),
            ),
        ),
        b.output_start_line is None || b.output_end_line is None ==> b.output_rows(
            history,
            cols,
        ) is None,
        b.output_start_line is Some && b.output_end_line == b.output_start_line
            ==> b.output_rows(history, cols) is None && b.silent(),
        b.silent() ==> b.output_rows(history, cols) is None,
{
}

/// A finished block owns the rows from its prompt up to, but not including, the
/// row where the next prompt stands.
pub open spec fn owns(b: Block, at: int) -> bool {
    &&& b.prompt_line is Some
    &&& b.output_end_line is Some
    &&& b.prompt_line->0 <= at < b.output_end_line->0
}

proof fn lemma_claimant(bs: Seq<Block>, at: int, raw: bool, k: int)
    requires
        0 <= k < bs.len(),
        claims(bs[k], at, raw),
        forall|i: int| 0 <= i < k ==> !claims(#[trigger] bs[i], at, raw),
    ensures
        claimant(bs, at, raw) == k,
    decreases bs.len(),
{
    if k > 0 {
        assert(!claims(bs[0], at, raw));
        let rest = bs.drop_first();
        assert forall|i: int| 0 <= i < k - 1 implies !claims(#[trigger] rest[i], at, raw) by {
            assert(!claims(bs[i + 1], at, raw));
        }
        lemma_claimant(rest, at, raw, k - 1);
    }
}

/// A row that one finished block owns, and that no block before it reaches,
/// names that block: all of its rows, from the prompt to the last one of its
/// output.
pub proof fn law_row_names_its_block(bs: Seq<Block>, k: int, at: int, history: i32, cols: usize)
    requires
        0 <= k < bs.len(),
        owns(bs[k], at),
        forall|i: int|
            0 <= i < k ==> (#[trigger] bs[i]).prompt_line is Some && bs[i].output_end_line is Some
                && bs[i].output_end_line->0 <= at && bs[i].prompt_line->0
                < bs[i].output_end_line->0,
        cols > 0,
    ensures
        block_rows(bs, at, history, cols) == Some(
            (
                ((bs[k].prompt_line->0 - history) as i32, 0usize),
                ((bs[k].output_end_line->0 - 1 - history) as i32, (cols - 1) as usize),
            ),
        ),
{
    assert forall|i: int| 0 <= i < k implies !claims(#[trigger] bs[i], at, false) by {
        assert(bs[i].output_end_line->0 <= at);
    }
    lemma_claimant(bs, at, false, k);
}

proof fn lemma_unclaimed(bs: Seq<Block>, at: int, raw: bool)
    requires
        forall|i: int| 0 <= i < bs.len() ==> !claims(#[trigger] bs[i], at, raw),
    ensures
        claimant(bs, at, raw) == bs.len(),
    decreases bs.len(),
{
    if bs.len() > 0 {
        assert(!claims(bs[0], at, raw));
        let rest = bs.drop_first();
        assert forall|i: int| 0 <= i < rest.len() implies !claims(#[trigger] rest[i], at, raw) by {
            assert(!claims(bs[i + 1], at, raw));
        }
        lemma_unclaimed(rest, at, raw);
    }
}

/// A row that lies above every block names none.
pub proof fn law_row_above_all_names_none(bs: Seq<Block>, at: int, history: i32, cols: usize)
    requires
        forall|i: int|
            0 <= i < bs.len() ==> (#[trigger] bs[i]).prompt_line is Some && at
                < bs[i].prompt_line->0,
    ensures
        block_rows(bs, at, history, cols) is None,
{
    assert forall|i: int| 0 <= i < bs.len() implies !claims(#[trigger] bs[i], at, false) by {
        assert(at < bs[i].prompt_line->0);
    }
    assert forall|i: int| 0 <= i < bs.len() implies !claims(#[trigger] bs[i], at, true) by {
        assert(at < bs[i].prompt_line->0);
    }
    lemma_unclaimed(bs, at, false);
    lemma_unclaimed(bs, at, true);
}

/// A block whose first row is in view has a label there, in the style of the
/// shared cursor where that is on it, and otherwise of its tags.
pub proof fn law_block_is_labelled(
    bs: Seq<LabelBlock>,
    cursor: Option<u32>,
    history: i32,
    offset: i32,
    rows: i32,
    k: int,
)
    requires
        0 <= k < bs.len() <= usize::MAX,
        bs[k].anchor is Some,
        0 <= bs[k].anchor->0 - history + offset < rows,
    ensures
        ({
            let out = labels(bs, cursor, history, offset, rows);
            exists|j: int|
                {
                    &&& 0 <= j < out.len()
                    &&& (#[trigger] out[j]).index == k
                    &&& out[j].row == bs[k].anchor->0 - history + offset
                    &&& cursor == Some(bs[k].id) ==> out[j].style == LabelStyle::Cursor
                    &&& cursor != Some(bs[k].id) && bs[k].tagged ==> out[j].style
                        == LabelStyle::Tagged
                    &&& cursor != Some(bs[k].id) && !bs[k].tagged ==> out[j].style
                        == LabelStyle::Plain
                }
        }),
    decreases bs.len(),
{
    let rest = bs.drop_last();
    let out = labels(bs, cursor, history, offset, rows);
    let had = labels(rest, cursor, history, offset, rows);
    if k < rest.len() {
        law_block_is_labelled(rest, cursor, history, offset, rows, k);
        let j = choose|j: int|
            {
                &&& 0 <= j < had.len()
                &&& (#[trigger] had[j]).index == k
                &&& had[j].row == rest[k].anchor->0 - history + offset
                &&& cursor == Some(rest[k].id) ==> had[j].style == LabelStyle::Cursor
                &&& cursor != Some(rest[k].id) && rest[k].tagged ==> had[j].style
                    == LabelStyle::Tagged
                &&& cursor != Some(rest[k].id) && !rest[k].tagged ==> had[j].style
                    == LabelStyle::Plain
            };
        assert(out[j] == had[j]);
    } else {
        assert(out[had.len() as int].index == k);
    }
}

/// A label is that of a block whose first row it stands in; no block has two.
pub proof fn law_label_is_of_a_block(
    bs: Seq<LabelBlock>,
    cursor: Option<u32>,
    history: i32,
    offset: i32,
    rows: i32,
    j: int,
)
    requires
        bs.len() <= usize::MAX,
        0 <= j < labels(bs, cursor, history, offset, rows).len(),
    ensures
        ({
            let out = labels(bs, cursor, history, offset, rows);
            &&& out[j].index < bs.len()
            &&& bs[out[j].index as int].anchor is Some
            &&& out[j].row == bs[out[j].index as int].anchor->0 - history + offset
            &&& 0 <= out[j].row < rows
            &&& forall|i: int| 0 <= i < j ==> (#[trigger] out[i]).index < out[j].index
        }),
    decreases bs.len(),
{
    let rest = bs.drop_last();
    let out = labels(bs, cursor, history, offset, rows);
    let had = labels(rest, cursor, history, offset, rows);
    if j < had.len() {
        law_label_is_of_a_block(rest, cursor, history, offset, rows, j);
        assert(out[j] == had[j]);
        assert forall|i: int| 0 <= i < j implies (#[trigger] out[i]).index < out[j].index by {
            assert(out[i] == had[i]);
        }
    } else {
        assert forall|i: int| 0 <= i < j implies (#[trigger] out[i]).index < out[j].index by {
            law_label_is_of_a_block(rest, cursor, history, offset, rows, i);
            assert(out[i] == had[i]);
        }
    }
}

/// A block is looked up by its id: the first with that id, or none.
pub proof fn law_block_is_found_by_id(bs: Seq<Block>, id: u32)
    ensures
        ({
            let k = block_pos(bs, id);
            &&& 0 <= k <= bs.len()
            &&& k < bs.len() ==> bs[k].id == id
            &&& forall|i: int| 0 <= i < k ==> (#[trigger] bs[i]).id != id
        }),
    decreases bs.len(),
{
    if bs.len() > 0 && bs[0].id != id {
        let rest = bs.drop_first();
        law_block_is_found_by_id(rest, id);
        let k = block_pos(bs, id);
        assert forall|i: int| 0 <= i < k implies (#[trigger] bs[i]).id != id by {
            if i > 0 {
                assert(rest[i - 1].id != id);
            }
        }
    }
}

/// An export holds every block from the one that was named on, and all where
/// none was, in their order.
pub proof fn law_export_holds_all_since(bs: Seq<Block>, since: Option<u32>)
    ensures
        since is None ==> from_block(bs, since) == bs,
        since matches Some(n) ==> from_block(bs, since) == bs.filter(|b: Block| b.id >= n),
    decreases bs.len(),
{
    reveal(Seq::filter);
    if bs.len() > 0 {
        let rest = bs.drop_last();
        law_export_holds_all_since(rest, since);
        assert(rest.push(bs.last()) =~= bs);
    }
    if let Some(n) = since {
        assert(from_block(bs, since) =~= bs.filter(|b: Block| b.id >= n));
    }
}

/// Who subscribed hears that a block has closed, with its exit code, and then
/// that another has opened, each of the tab that it happened in.
pub proof fn law_block_events_are_told(tab: u64, m: MarkEffect)
    ensures
        m.closed is None && m.opened is None ==> mark_events(tab, m).len() == 0,
        m.closed is Some ==> mark_events(tab, m).len() > 0 && (mark_events(
            tab,
            m,
        )[0] matches EventPayload::BlockClosed { tab_id, block_id, exit_code } && tab_id == tab
            && (block_id, exit_code) == m.closed->0),
        m.opened is Some ==> mark_events(tab, m).len() > 0 && mark_events(tab, m).last()
            == (EventPayload::BlockOpened { tab_id: tab, block_id: m.opened->0 }),
        mark_events(tab, m).len() == (if m.closed is Some {
            1int
        } else {
            0
        }) + (if m.opened is Some {
            1int
        } else {
            0
        }),
{
}

} // verus!

//! What typing does in the palette and in the find bar.

use crate::find::Match;
use crate::overlays::{advice, ScrollTarget};
use crate::palette::{command_label, law_palette_lists_matches, PaletteState};
use crate::renderer::{Effects, Renderer};
use crate::text::{found_in, lowercase};
use vstd::prelude::*;

verus! {

/// A palette that opens offers every command, the first one highlighted, with
/// nothing typed yet.
pub proof fn law_palette_opens_with_all(before: Renderer, after: Renderer, e: Effects, i: int)
    requires
        after.palette_opened(before, e),
        0 <= i < 25,
    ensures
        after.palette matches Some(p) && {
            &&& p.query@.len() == 0
            &&& p.selected == 0
            &&& p.filtered@.len() == 25
            &&& p.filtered@[i] == i
        },
        after.ws == before.ws,
        e.redraw,
{
}

/// `p` offers the commands whose name holds `query`, letter case aside, and no
/// others, with the first one highlighted.
pub open spec fn offers(p: PaletteState, query: Seq<char>) -> bool {
    &&& p.query@ == query
    &&& p.selected == 0
    &&& forall|c: usize| #[trigger]
        p.filtered@.contains(c) <==> c < 25 && (lowercase(query).len() == 0 || found_in(
            lowercase(command_label(c as int)),
            lowercase(query),
        ))
}

proof fn lemma_offers(p: PaletteState, query: Seq<char>)
    requires
        p.shows(query),
    ensures
        offers(p, query),
{
    assert forall|c: usize| #[trigger] p.filtered@.contains(c) <==> c < 25 && (lowercase(
        query,
    ).len() == 0 || found_in(lowercase(command_label(c as int)), lowercase(query))) by {
        law_palette_lists_matches(p, query, c);
    }
}

/// A character that is typed into the palette joins the end of the query, and
/// the palette offers what matches it; where no palette is open nothing happens.
pub proof fn law_palette_follows_typing(before: Renderer, after: Renderer, ch: char, e: Effects)
    requires
        after.palette_typed(before, ch, e),
    ensures
        before.palette is None ==> after == before && !e.redraw,
        before.palette matches Some(p) ==> (after.palette matches Some(q) && offers(
            q,
            p.query@.push(ch),
        ) && e.redraw),
        after.ws == before.ws,
{
    if let Some(p) = before.palette {
        lemma_offers(after.palette->0, p.query@.push(ch));
    }
}

/// Taking a character back takes the last one that was typed: what was typed and
/// taken back leaves the query as it was.
pub proof fn law_palette_takes_back(
    before: Renderer,
    after: Renderer,
    back: Renderer,
    ch: char,
    d: Effects,
    e: Effects,
)
    requires
        after.palette_typed(before, ch, d),
        back.palette_shortened(after, e),
    ensures
        before.palette is None ==> back == before,
        before.palette matches Some(p) ==> (back.palette matches Some(q) && offers(q, p.query@)),
        back.ws == before.ws,
{
    if let Some(p) = before.palette {
        assert(p.query@.push(ch).drop_last() =~= p.query@);
        lemma_offers(back.palette->0, p.query@);
    }
}

/// In an empty query there is nothing to take back.
pub proof fn law_empty_palette_query_stays(before: Renderer, after: Renderer, e: Effects)
    requires
        after.palette_shortened(before, e),
        before.palette is Some,
        before.palette->0.query@.len() == 0,
    ensures
        after.palette is Some,
        after.palette->0.query@.len() == 0,
{
}

/// The highlight goes from row to row, down or up, from the last on to the first
/// and the other way round; the rows stay.
pub proof fn law_highlight_goes_round(before: Renderer, after: Renderer, down: bool, e: Effects)
    requires
        before.wf(),
        after.palette_moved(before, down, e),
        before.palette is Some,
        before.palette->0.filtered@.len() > 0,
    ensures
        ({
            let p = before.palette->0;
            let q = after.palette->0;
            let n = p.filtered@.len();
            &&& after.palette is Some
            &&& q.filtered == p.filtered
            &&& q.query == p.query
            &&& down && p.selected + 1 < n ==> q.selected == p.selected + 1
            &&& down && p.selected + 1 == n ==> q.selected == 0
            &&& !down && p.selected > 0 ==> q.selected == p.selected - 1
            &&& !down && p.selected == 0 ==> q.selected == n - 1
        }),
        after.ws == before.ws,
        e.redraw,
{
    let p = before.palette->0;
    assert(p.filtered.len() == p.filtered@.len());
}

/// A character that is typed into the find bar joins the end of the query; the
/// matches are those that a search for it finds, the first of them is at hand,
/// and the viewport goes to its line.
pub proof fn law_find_follows_typing<F: Fn(String) -> Vec<Match>>(
    before: Renderer,
    after: Renderer,
    ch: char,
    search: F,
    r: (Effects, Option<ScrollTarget>),
)
    requires
        after.find_typed(before, ch, &search, r),
    ensures
        before.find is None ==> after == before && r.1 is None,
        before.find is Some ==> {
            let f = after.find->0;
            &&& after.find is Some
            &&& f.query@ == before.find->0.query@.push(ch)
            &&& f.current == 0
            &&& exists|q: String|
                q@ == before.find->0.query@.push(ch) && #[trigger] call_ensures(
                    search,
                    (q,),
                    f.matches,
                )
            &&& f.matches@.len() > 0 ==> r.1 is Some && r.1->0.line == f.matches@[0].0
            &&& f.matches@.len() == 0 ==> r.1 is None
            &&& r.0.redraw
        },
        after.ws == before.ws,
{
}

/// Taking a character back searches anew for what is left of the query; an empty
/// one stays empty.
pub proof fn law_find_takes_back<F: Fn(String) -> Vec<Match>>(
    before: Renderer,
    after: Renderer,
    search: F,
    r: (Effects, Option<ScrollTarget>),
)
    requires
        after.find_shortened(before, &search, r),
    ensures
        before.find is None ==> after == before && r.1 is None,
        before.find is Some ==> {
            let was = before.find->0.query@;
            let f = after.find->0;
            &&& after.find is Some
            &&& was.len() == 0 ==> f.query@ == was
            &&& was.len() > 0 ==> f.query@.len() == was.len() - 1 && (forall|i: int|
                0 <= i < f.query@.len() ==> #[trigger] f.query@[i] == was[i])
            &&& f.current == 0
            &&& exists|q: String|
                q@ == f.query@ && #[trigger] call_ensures(search, (q,), f.matches)
            &&& f.matches@.len() > 0 ==> r.1 is Some && r.1->0.line == f.matches@[0].0
        },
        after.ws == before.ws,
{
}

/// The advice on the display: to zoom out where the text is dense, to zoom in
/// where it is coarse on a large screen, and none else.
pub proof fn law_advice_fits_the_display(dense: bool, coarse: bool, surface: (u32, u32))
    ensures
        dense ==> advice(dense, coarse, surface) == "Consider zooming out for sharper text"@,
        !dense && coarse && (surface.0 > 2500 || surface.1 > 1400) ==> advice(
            dense,
            coarse,
            surface,
        ) == "Consider zooming in for readability"@,
        !dense && !coarse ==> advice(dense, coarse, surface) == "Display looks good"@,
        !dense && surface.0 <= 2500 && surface.1 <= 1400 ==> advice(dense, coarse, surface)
            == "Display looks good"@,
{
}

/// Where there is nothing to highlight, a step changes nothing.
pub proof fn law_no_rows_no_step(before: Renderer, after: Renderer, down: bool, e: Effects)
    requires
        after.palette_moved(before, down, e),
        before.palette is None || before.palette->0.filtered@.len() == 0,
    ensures
        after == before,
{
}

} // verus!

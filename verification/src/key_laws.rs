//! What typing, pasting and the state of the keyboard come to.

use crate::encode::{end_at, stripped, ModeFlags};
use crate::keys::{page_scroll, scroll_edge, TermScroll};
use crate::press::Pressed;
use crate::renderer::{BellStyle, Effects, Renderer};
use crate::select_laws::{copies_between, reaches};
use crate::selection::Cell;
use crate::tab::TermSlot;
use vstd::prelude::*;
use vstd::utf8::encode_utf8;

verus! {

/// A page key scrolls the way that it says, and so does a jump to an edge.
pub proof fn law_scroll_keys_point_their_way()
    ensures
        page_scroll(true) == TermScroll::PageUp,
        page_scroll(false) == TermScroll::PageDown,
        scroll_edge(true) == TermScroll::Top,
        scroll_edge(false) == TermScroll::Bottom,
{
}

/// Selecting all selects from the first cell of the buffer to the last, and
/// copies that.
pub proof fn law_all_is_selected(before: Renderer, after: Renderer, a: Cell, b: Cell, r: Pressed)
    requires
        before.wf(),
        after.all_selected(before, (a, b), r),
    ensures
        reaches(after.ws.active_tab().selection, a, b),
        copies_between(r, a, b),
        after.ws.active_tab().kind == before.ws.active_tab().kind,
        after.room == before.room,
        after.find == before.find,
{
    before.ws.lemma_pane_wf(before.ws.active_pane);
}

/// A paste sends the text as it is to a shell that does not ask for a frame; to
/// one that does, the frame around it, and between its ends the text, as it is
/// where it holds no end of a frame itself. The human was there. An empty
/// clipboard sends nothing.
pub proof fn law_paste_sends_the_text(
    before: Renderer,
    after: Renderer,
    text: Option<String>,
    mode: ModeFlags,
    now: u64,
    r: Option<Vec<u8>>,
)
    requires
        after.pasted_in(before, text, mode, now, r),
    ensures
        text is None ==> r is None && after == before,
        text is Some && text->0@.len() == 0 ==> r is None && after == before,
        text is Some && text->0@.len() > 0 ==> {
            let t = text->0@;
            &&& r is Some
            &&& !mode.bracketed_paste ==> r->0@ == encode_utf8(t)
            &&& mode.bracketed_paste && (forall|i: int| !end_at(t, i)) ==> r->0@ == encode_utf8(
                seq!['\x1b', '[', '2', '0', '0', '~'],
            ) + encode_utf8(t) + encode_utf8(seq!['\x1b', '[', '2', '0', '1', '~'])
            &&& after.floor.human@.contains_key(before.ws.active_tab().id.0)
            &&& after.floor.human@[before.ws.active_tab().id.0] == now
            &&& after.ws == before.ws
        },
{
    if text is Some && mode.bracketed_paste && (forall|i: int| !end_at(text->0@, i)) {
        crate::encode::law_clean_paste_is_unchanged(text->0@);
    }
}

/// What an input method has composed goes to the terminal of the active tab,
/// once, and is no longer in flight.
pub proof fn law_composed_text_is_sent(
    before: Renderer,
    after: Renderer,
    text: Seq<char>,
    now: u64,
    r: Option<(TermSlot, Vec<u8>)>,
)
    requires
        after.committed(before, text, now, r),
    ensures
        after.preedit@.len() == 0,
        text.len() == 0 ==> r is None,
        text.len() > 0 ==> (r matches Some(w) && w.1@ == encode_utf8(text)),
        text.len() > 0 && before.ws.active_tab().kind is Shell ==> (r matches Some(w) && w.0
            == TermSlot::Shell),
        text.len() > 0 && before.ws.active_tab().kind is Module
            && before.ws.active_tab().module_pty ==> (r matches Some(w) && w.0 == TermSlot::Module),
        text.len() > 0 ==> after.floor.human@[before.ws.active_tab().id.0] == now,
        after.ws == before.ws,
{
}

/// The window knows whether it has the keyboard, an application that asks hears
/// of it, and the configuration is read again when it comes back.
pub proof fn law_keyboard_focus_is_told(
    before: Renderer,
    after: Renderer,
    focused: bool,
    mode: ModeFlags,
    r: Option<Vec<u8>>,
    e: Effects,
)
    requires
        after.refocused(before, focused, mode, r, e),
    ensures
        after.focused == focused,
        after.ws == before.ws,
        !mode.focus_in_out ==> r is None,
        mode.focus_in_out && focused ==> r is Some && r->0@ == seq![27u8, 91u8, 73u8],
        mode.focus_in_out && !focused ==> r is Some && r->0@ == seq![27u8, 91u8, 79u8],
        e.reload_config == focused,
        e.redraw,
{
}

/// A bell flashes for 120 milliseconds from the last one on, unless it is to be
/// silent; a bell during a flash asks for no frame of its own.
pub proof fn law_bell_flashes(before: Renderer, after: Renderer, now: u64, e: Effects)
    requires
        after.rung(before, now, e),
        now + 120_000_000 <= u64::MAX,
    ensures
        before.config.bell_style == BellStyle::Silent ==> after == before && !e.redraw,
        before.config.bell_style == BellStyle::Visual ==> after.bell_flash_until == Some(
            (now + 120_000_000) as u64,
        ),
        before.config.bell_style == BellStyle::Visual && before.bell_flash_until is None
            ==> e.redraw,
        before.config.bell_style == BellStyle::Visual && (before.bell_flash_until matches Some(t)
            && t > now) ==> !e.redraw,
        after.ws == before.ws,
{
}

/// A key that the human types is noted for the pane that it goes to, and for no
/// other.
pub proof fn law_typing_is_noted(before: Renderer, after: Renderer, now: u64, other: u64)
    requires
        after.typed_at(before, now),
    ensures
        after.floor.human@.contains_key(before.ws.active_tab().id.0),
        after.floor.human@[before.ws.active_tab().id.0] == now,
        other != before.ws.active_tab().id.0 ==> {
            &&& after.floor.human@.contains_key(other) == before.floor.human@.contains_key(other)
            &&& before.floor.human@.contains_key(other) ==> after.floor.human@[other]
                == before.floor.human@[other]
        },
        after.floor.submits == before.floor.submits,
{
}

/// The mark that ends a bracketed paste.
pub open spec fn end_mark() -> Seq<char> {
    seq!['\x1b', '[', '2', '0', '1', '~']
}

/// A pasted text loses every end mark, and nothing but end marks: a mark goes as
/// a whole, and any character that does not complete one stays.
pub proof fn law_paste_loses_only_end_marks(s: Seq<char>, c: char)
    ensures
        stripped(s + end_mark()) == stripped(s),
        c != '~' ==> stripped(s.push(c)) == stripped(s).push(c),
        c == '~' && !(stripped(s).len() >= 5 && stripped(s).subrange(
            stripped(s).len() - 5,
            stripped(s).len() as int,
        ) == seq!['\x1b', '[', '2', '0', '1']) ==> stripped(s.push(c)) == stripped(s).push(c),
{
    lemma_pushed(s, c);
    if c == '~' && end_at(stripped(s).push(c), stripped(s).len() - 5) {
        let t = stripped(s);
        assert(t.subrange(t.len() - 5, t.len() as int) =~= seq!['\x1b', '[', '2', '0', '1']) by {
            let u = t.push(c);
            let n = t.len() - 5;
            assert(u[n] == t[n] && u[n + 1] == t[n + 1] && u[n + 2] == t[n + 2]);
            assert(u[n + 3] == t[n + 3] && u[n + 4] == t[n + 4]);
        }
    }
    let s1 = s.push('\x1b');
    let s2 = s1.push('[');
    let s3 = s2.push('2');
    let s4 = s3.push('0');
    let s5 = s4.push('1');
    lemma_pushed(s, '\x1b');
    lemma_pushed(s1, '[');
    lemma_pushed(s2, '2');
    lemma_pushed(s3, '0');
    lemma_pushed(s4, '1');
    lemma_pushed(s5, '~');
    assert(s + end_mark() =~= s5.push('~'));
    let out = stripped(s5).push('~');
    let n = stripped(s).len() as int;
    assert(out.len() == n + 6);
    assert(end_at(out, n));
    assert(out.take(n) =~= stripped(s));
}

proof fn lemma_pushed(s: Seq<char>, c: char)
    ensures
        ({
            let out = stripped(s).push(c);
            stripped(s.push(c)) == (if end_at(out, out.len() - 6) {
                out.take(out.len() - 6)
            } else {
                out
            })
        }),
        c != '~' ==> stripped(s.push(c)) == stripped(s).push(c),
{
    assert(s.push(c).drop_last() =~= s);
    let out = stripped(s).push(c);
    if end_at(out, out.len() - 6) {
        assert(out[out.len() - 1] == '~');
    }
}

} // verus!

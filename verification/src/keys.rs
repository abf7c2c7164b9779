//! The clipboard, input methods, the bell, and what else concerns the active
//! tab's terminal.

use crate::encode::{
    end_at, focus_report, lemma_stripped_clean, paste_bytes, pasted, stripped, ModeFlags,
};
use crate::press::{copies, copy_of, Pressed};
use crate::renderer::{draw, no_effects, nothing, redraw, BellStyle, Effects, Renderer};
use crate::room::LATEST;
use crate::selection::{Cell, Selection};
use crate::tab::{Tab, TermSlot};
use vstd::prelude::*;
use vstd::utf8::encode_utf8;

verus! {

/// How long a visual bell is on screen.
pub const BELL_DURATION: u64 = 120_000_000;

/// A move of a terminal's viewport.
#[derive(Copy, Clone, PartialEq, Eq, Structural, Debug)]
pub enum TermScroll {
    PageUp,
    PageDown,
    Top,
    Bottom,
}

/// Where a page key scrolls to.
pub open spec fn page_scroll(up: bool) -> TermScroll {
    if up {
        TermScroll::PageUp
    } else {
        TermScroll::PageDown
    }
}

/// Which edge of its scrollback a terminal is scrolled to.
pub open spec fn scroll_edge(top: bool) -> TermScroll {
    if top {
        TermScroll::Top
    } else {
        TermScroll::Bottom
    }
}

impl Renderer {
    /// `self` is `before` with all of the active tab's buffer selected; `r` asks
    /// the host to copy it.
    pub open spec fn all_selected(self, before: Renderer, buffer: (Cell, Cell), r: Pressed) -> bool {
        let t = Tab {
            selection: Some(
                Selection {
                    anchor_line: buffer.0.0,
                    anchor_col: buffer.0.1,
                    head_line: buffer.1.0,
                    head_col: buffer.1.1,
                },
            ),
            ..before.ws.active_tab()
        };
        &&& self.same_but_ws(before)
        &&& self.ws.active_tab_became(before.ws, t)
        &&& copies(r, t)
    }

    /// `self` is `before` after a paste of `text`; `r` are the bytes to be sent.
    pub open spec fn pasted_in(
        self,
        before: Renderer,
        text: Option<String>,
        mode: ModeFlags,
        now: u64,
        r: Option<Vec<u8>>,
    ) -> bool {
        if text is Some && text->0@.len() > 0 {
            &&& self.typed_at(before, now)
            &&& r matches Some(b) && b@ == pasted(text->0@, mode.bracketed_paste)
            &&& forall|i: int| !end_at(stripped(text->0@), i)
        } else {
            self == before && r is None
        }
    }

    /// `self` is `before` once an input method has composed `text`; `r` says
    /// which bytes go to which terminal.
    pub open spec fn committed(
        self,
        before: Renderer,
        text: Seq<char>,
        now: u64,
        r: Option<(TermSlot, Vec<u8>)>,
    ) -> bool {
        let cleared = Renderer { preedit: self.preedit, ..before };
        &&& self.preedit@.len() == 0
        &&& if text.len() > 0 {
            &&& self.typed_at(cleared, now)
            &&& r matches Some(w) && w.0 == before.ws.active_tab().term() && w.1@ == encode_utf8(
                text,
            )
        } else {
            self == cleared && r is None
        }
    }

    /// `self` is `before` once the window has got or lost the keyboard; `r` is
    /// what the application hears of it.
    pub open spec fn refocused(
        self,
        before: Renderer,
        focused: bool,
        mode: ModeFlags,
        r: Option<Vec<u8>>,
        e: Effects,
    ) -> bool {
        &&& self == Renderer { focused, ..before }
        &&& if mode.focus_in_out {
            r matches Some(b) && b@ == seq![27u8, 91u8, if focused { 73u8 } else { 79u8 }]
        } else {
            r is None
        }
        &&& e == Effects { reload_config: focused, redraw: true, ..nothing() }
    }

    /// `self` is `before` after a bell.
    pub open spec fn rung(self, before: Renderer, now: u64, e: Effects) -> bool {
        if before.config.bell_style == BellStyle::Silent {
            self == before && e == nothing()
        } else {
            &&& self == Renderer {
                bell_flash_until: Some((now + BELL_DURATION) as u64),
                ..before
            }
            &&& e == (if before.bell_flash_until matches Some(t) && t > now {
                nothing()
            } else {
                draw()
            })
        }
    }

    /// A human has typed into the active tab.
    pub fn note_human_input(&mut self, now: u64)
        requires
            old(self).wf(),
        ensures
            final(self).wf(),
            final(self).typed_at(*old(self), now),
    {
        let id = self.ws.active_tab_ref().id;
        self.floor.note_human_input(id.0, now);
    }

    /// `self` is `before` once a human has typed into its active tab.
    pub open spec fn typed_at(self, before: Renderer, now: u64) -> bool {
        &&& self == Renderer { floor: self.floor, ..before }
        &&& self.floor.human@ == before.floor.human@.insert(before.ws.active_tab().id.0, now)
        &&& self.floor.submits == before.floor.submits
    }

    pub fn scroll_page(&self, up: bool) -> (r: (TermScroll, Effects))
        ensures
            r.0 == page_scroll(up),
            r.1 == draw(),
    {
        (
            if up {
                TermScroll::PageUp
            } else {
                TermScroll::PageDown
            },
            redraw(),
        )
    }

    /// Jump the viewport to the top of scrollback or back down to the live
    /// prompt.
    pub fn scroll_to_edge(&self, top: bool) -> (r: (TermScroll, Effects))
        ensures
            r.0 == scroll_edge(top),
            r.1 == draw(),
    {
        (
            if top {
                TermScroll::Top
            } else {
                TermScroll::Bottom
            },
            redraw(),
        )
    }

    /// The active tab's scrollback has been cleared.
    pub fn clear_scrollback(&self) -> (e: Effects)
        ensures
            e == draw(),
    {
        redraw()
    }

    /// Select the whole buffer, history and screen, and copy it.
    pub fn select_all(&mut self, buffer: (Cell, Cell)) -> (r: (Pressed, Effects))
        requires
            old(self).wf(),
        ensures
            final(self).wf(),
            final(self).all_selected(*old(self), buffer, r.0),
            r.1 == draw(),
    {
        let tab = self.ws.active_tab_mut();
        tab.selection = Some(
            Selection {
                anchor_line: buffer.0.0,
                anchor_col: buffer.0.1,
                head_line: buffer.1.0,
                head_col: buffer.1.1,
            },
        );
        let r = copy_of(tab);
        (r, redraw())
    }

    /// What of the active tab is to be copied.
    pub fn copy_selection(&self) -> (r: Pressed)
        requires
            self.wf(),
        ensures
            copies(r, self.ws.active_tab()),
    {
        copy_of(self.ws.active_tab_ref())
    }

    /// The bytes that a paste of the clipboard's text sends to the active
    /// tab's shell.
    pub fn paste(&mut self, text: Option<String>, mode: ModeFlags, now: u64) -> (r: Option<Vec<u8>>)
        requires
            old(self).wf(),
        ensures
            final(self).wf(),
            final(self).pasted_in(*old(self), text, mode, now, r),
    {
        match text {
            Some(t) => {
                if t.as_str().is_empty() {
                    return None;
                }
                self.note_human_input(now);
                proof {
                    lemma_stripped_clean(text->0@);
                }
                Some(paste_bytes(t.as_str(), mode.bracketed_paste))
            },
            None => None,
        }
    }

    /// Text that an input method is still composing.
    pub fn ime_preedit(&mut self, text: String) -> (e: Effects)
        requires
            old(self).wf(),
        ensures
            final(self).wf(),
            *final(self) == (Renderer { preedit: text, ..*old(self) }),
            e == draw(),
    {
        self.preedit = text;
        redraw()
    }

    /// Text that an input method has composed: bytes for a terminal of the
    /// active tab.
    pub fn ime_commit(&mut self, text: String, now: u64) -> (r: (
        Option<(TermSlot, Vec<u8>)>,
        Effects,
    ))
        requires
            old(self).wf(),
        ensures
            final(self).wf(),
            final(self).committed(*old(self), text@, now, r.0),
            r.1 == draw(),
    {
        self.preedit = String::new();
        if text.as_str().is_empty() {
            return (None, redraw());
        }
        self.note_human_input(now);
        let term = self.ws.active_tab_ref().active_term();
        (Some((term, text.as_str().as_bytes_vec())), redraw())
    }

    /// The window has got or lost the keyboard. The configuration is read
    /// again when it has got it.
    pub fn focus_changed(&mut self, focused: bool, mode: ModeFlags) -> (r: (
        Option<Vec<u8>>,
        Effects,
    ))
        requires
            old(self).wf(),
        ensures
            final(self).wf(),
            final(self).refocused(*old(self), focused, mode, r.0, r.1),
    {
        self.focused = focused;
        let b = if mode.focus_in_out {
            Some(focus_report(focused))
        } else {
            None
        };
        (
            b,
            Effects {
                reload_config: focused,
                relayout: false,
                retitle: false,
                redraw: true,
                persist: false,
            },
        )
    }

    /// A terminal has rung the bell. A storm of bells extends the flash and
    /// asks for no more frames.
    pub fn ring_bell(&mut self, now: u64) -> (e: Effects)
        requires
            old(self).wf(),
            now <= LATEST,
        ensures
            final(self).wf(),
            final(self).rung(*old(self), now, e),
    {
        if self.config.bell_style == BellStyle::Silent {
            return no_effects();
        }
        let on = match self.bell_flash_until {
            Some(t) => t > now,
            None => false,
        };
        self.bell_flash_until = Some(now + BELL_DURATION);
        if on {
            no_effects()
        } else {
            redraw()
        }
    }
}

} // verus!

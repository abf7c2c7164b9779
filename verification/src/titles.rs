//! Titles of tabs: set by a shell, or worked out by the system.

use crate::renderer::{no_effects, nothing, redraw, Effects, Renderer};
use crate::retab::{lemma_own_place, lemma_retabbed_refl, lemma_retabbed_trans};
use crate::tab::{Tab, TabId};
use crate::tab_tree::ids_of;
use crate::text::{blank, is_blank, same_text};
use vstd::prelude::*;

verus! {

/// How long titles that the system gives are kept.
pub const TITLE_REFRESH: u64 = 500_000_000;

/// `u` is `t` with the title that its shell has set.
pub open spec fn shell_titled(t: Tab, u: Tab, title: String) -> bool {
    if blank(title@) {
        &&& u == Tab { shell_title: None, last_auto_title: u.last_auto_title, ..t }
        &&& u.last_auto_title@.len() == 0
    } else {
        u == Tab { shell_title: Some(title), title, ..t }
    }
}

/// `u` is `t` after the system has named it; a title that its shell has set
/// stays.
pub open spec fn auto_titled(t: Tab, u: Tab, title: String) -> bool {
    if takes_title(t, title@) {
        u == Tab { last_auto_title: title, title, ..t }
    } else {
        u == t
    }
}

/// A title from the system is news to `t`.
pub open spec fn takes_title(t: Tab, title: Seq<char>) -> bool {
    t.shell_title is None && title != t.last_auto_title@
}

impl Renderer {
    /// `self` is `before` with the tab `id` changed to `t`.
    pub open spec fn tab_changed(self, before: Renderer, id: TabId, t: Tab) -> bool {
        self.same_but_ws(before) && self.ws.tab_became(before.ws, id, t)
    }

    /// What a title that a shell asked for changes.
    pub open spec fn titled(
        self,
        before: Renderer,
        tab_id: TabId,
        title: String,
        e: Effects,
    ) -> bool {
        &&& (if before.ws.tree().has_tab(tab_id) {
            let u = self.ws.tree().tab(tab_id);
            &&& shell_titled(before.ws.tree().tab(tab_id), u, title)
            &&& self.tab_changed(before, tab_id, u)
        } else {
            self == before
        })
        &&& e == (Effects {
            redraw: blank(title@),
            retitle: !blank(title@) && tab_id == before.ws.active_tab().id,
            ..nothing()
        })
    }

    /// Apply a title from a shell. It wins over the auto title for as long as
    /// the shell keeps setting one. A blank title counts as unset: the auto
    /// title takes over again.
    pub fn set_tab_title(&mut self, tab_id: TabId, title: String) -> (e: Effects)
        requires
            old(self).wf(),
        ensures
            final(self).wf(),
            final(self).titled(*old(self), tab_id, title, e),
    {
        if is_blank(title.as_str()) {
            if let Some(tab) = self.ws.tab_mut(tab_id) {
                tab.shell_title = None;
                tab.last_auto_title = String::new();
            }
            return redraw();
        }
        let active = self.ws.active_tab_ref().id == tab_id;
        if let Some(tab) = self.ws.tab_mut(tab_id) {
            tab.shell_title = Some(title.clone());
            tab.title = title;
        }
        Effects {
            reload_config: false,
            relayout: false,
            retitle: active,
            redraw: false,
            persist: false,
        }
    }

    /// Whether titles are due to be asked of the system.
    pub fn titles_due(&self, now: u64) -> (r: bool)
        ensures
            r == (now >= self.last_title_refresh + TITLE_REFRESH),
    {
        now >= self.last_title_refresh && now - self.last_title_refresh >= TITLE_REFRESH
    }

    /// What a look at the titles changes: nothing before its time.
    pub open spec fn retitled_all(
        self,
        before: Renderer,
        now: u64,
        titles: &Vec<String>,
        e: Effects,
    ) -> bool {
        if now >= before.last_title_refresh + TITLE_REFRESH {
            &&& self == (Renderer {
                ws: self.ws,
                last_title_refresh: now,
                ..before
            })
            &&& self.ws.retabbed(before.ws)
            &&& self.ws.all().len() == titles@.len()
            &&& forall|i: int|
                0 <= i < titles@.len() ==> auto_titled(
                    before.ws.all()[i],
                    #[trigger] self.ws.all()[i],
                    titles@[i],
                )
            &&& e == (Effects {
                retitle: takes_title(
                    before.ws.active_tab(),
                    titles@[before.ws.active_place()]@,
                ),
                ..nothing()
            })
        } else {
            self == before && e == nothing()
        }
    }

    /// Take the titles that the system gives, one for each tab of the window.
    /// Nothing happens before they are due.
    pub fn refresh_auto_titles(&mut self, now: u64, titles: &Vec<String>) -> (e: Effects)
        requires
            old(self).wf(),
            titles@.len() == old(self).ws.all().len(),
        ensures
            final(self).wf(),
            final(self).retitled_all(*old(self), now, titles, e),
    {
        if !self.titles_due(now) {
            return no_effects();
        }
        let ghost before = *self;
        let ghost w = self.ws;
        proof {
            w.lemma_active_place();
            lemma_retabbed_refl(w);
        }
        self.last_title_refresh = now;
        let active = self.ws.active_tab_ref().id;
        let ids = self.ws.tab_ids();
        let mut retitle = false;
        let mut i: usize = 0;
        while i < ids.len()
            invariant
                i <= ids@.len(),
                ids@ == ids_of(w.all()),
                titles@.len() == w.all().len(),
                w.wf(),
                active == w.active_tab().id,
                0 <= w.active_place() < w.all().len(),
                w.all()[w.active_place()] == w.active_tab(),
                self.wf(),
                *self == (Renderer { ws: self.ws, last_title_refresh: now, ..before }),
                self.ws.retabbed(w),
                self.ws.all().len() == w.all().len(),
                forall|j: int|
                    0 <= j < i ==> auto_titled(w.all()[j], #[trigger] self.ws.all()[j], titles@[j]),
                forall|j: int|
                    i <= j < self.ws.all().len() ==> #[trigger] self.ws.all()[j] == w.all()[j],
                retitle == (w.active_place() < i && takes_title(
                    w.active_tab(),
                    titles@[w.active_place()]@,
                )),
            decreases ids.len() - i,
        {
            let ghost mid = self.ws;
            let id = ids[i];
            proof {
                lemma_own_place(mid.all(), i as int, mid.next_tab_id);
                lemma_own_place(w.all(), i as int, w.next_tab_id);
                lemma_own_place(w.all(), w.active_place(), w.next_tab_id);
                assert(ids@[i as int] == w.all()[i as int].id);
                assert(mid.all()[i as int] == w.all()[i as int]);
            }
            let mut changed = false;
            if let Some(tab) = self.ws.tab_mut(id) {
                if tab.shell_title.is_none() && !same_text(
                    titles[i].as_str(),
                    tab.last_auto_title.as_str(),
                ) {
                    tab.last_auto_title = titles[i].clone();
                    tab.title = titles[i].clone();
                    changed = true;
                }
            }
            proof {
                lemma_retabbed_trans(w, mid, self.ws);
                assert(auto_titled(
                    w.all()[i as int],
                    self.ws.all()[i as int],
                    titles@[i as int],
                ));
            }
            if changed && id == active {
                retitle = true;
            }
            i = i + 1;
        }
        Effects { reload_config: false, relayout: false, retitle, redraw: false, persist: false }
    }
}

} // verus!

//! Which title a tab shows: the one that its shell asked for, else the one that
//! the system worked out.

use crate::content_laws::{law_change_by_id, lemma_tab_at};
use crate::renderer::{Effects, Renderer};
use crate::tab::TabId;
use crate::text::blank;
use vstd::prelude::*;

verus! {

/// A title that a shell asks for is that of its tab from then on, and the
/// window's where the tab is on show. A blank one gives the title back to the
/// system.
pub proof fn law_shell_sets_its_title(
    before: Renderer,
    after: Renderer,
    k: int,
    title: String,
    e: Effects,
)
    requires
        before.wf(),
        after.wf(),
        0 <= k < before.ws.all().len(),
        after.titled(before, before.ws.all()[k].id, title, e),
    ensures
        after.ws.all().len() == before.ws.all().len(),
        after.ws.all()[k].id == before.ws.all()[k].id,
        !blank(title@) ==> after.ws.all()[k].title@ == title@ && after.ws.all()[k].shell_title
            is Some && after.ws.all()[k].shell_title->0@ == title@,
        blank(title@) ==> after.ws.all()[k].shell_title is None && after.ws.all()[k].title
            == before.ws.all()[k].title,
        forall|j: int|
            0 <= j < before.ws.all().len() && j != k ==> #[trigger] after.ws.all()[j]
                == before.ws.all()[j],
        e.retitle <==> !blank(title@) && before.ws.all()[k].id == before.ws.active_tab().id,
        e.redraw <==> blank(title@),
{
    let id = before.ws.all()[k].id;
    lemma_tab_at(before, k);
    law_change_by_id(before, after, k, after.ws.tree().tab(id));
}

/// A title for a tab that is gone changes nothing.
pub proof fn law_title_of_a_gone_tab(
    before: Renderer,
    after: Renderer,
    id: TabId,
    title: String,
    e: Effects,
)
    requires
        after.titled(before, id, title, e),
        !before.ws.tree().has_tab(id),
    ensures
        after == before,
{
}

/// Every half second each tab takes the title that the system works out for it,
/// unless its shell has set one; in between nothing changes.
pub proof fn law_system_names_the_tabs(
    before: Renderer,
    after: Renderer,
    now: u64,
    titles: Vec<String>,
    e: Effects,
    i: int,
)
    requires
        before.wf(),
        after.retitled_all(before, now, &titles, e),
        titles@.len() == before.ws.all().len(),
        0 <= i < titles@.len(),
    ensures
        now < before.last_title_refresh + 500_000_000 ==> after == before && !e.retitle,
        now >= before.last_title_refresh + 500_000_000 ==> {
            let t = before.ws.all()[i];
            let u = after.ws.all()[i];
            &&& after.last_title_refresh == now
            &&& after.ws.all().len() == before.ws.all().len()
            &&& u.id == t.id
            &&& t.shell_title is Some ==> u == t
            &&& t.shell_title is None && titles@[i]@ != t.last_auto_title@ ==> u.title@ == titles@[i]@
                && u.last_auto_title@ == titles@[i]@ && u.shell_title is None
            &&& titles@[i]@ == t.last_auto_title@ ==> u == t
        },
{
}

} // verus!

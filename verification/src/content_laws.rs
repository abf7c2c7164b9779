//! What is in a tab: a shell, a page, a module's text or picture, or an agent's
//! conversation; and who hears the keys.

use crate::agent::{heard, keyed, AcpEvent, AcpReply};
use crate::animation::{largest, shown_for, Frame, TabAnimation};
use crate::frame::{body_text, from_terminal, image_of, mark_of, TabMark, Underline};
use crate::kinds::{key_text, launch, GraphicsAction, Written};
use crate::menu::same_kind;
use crate::messages::{
    listeners, plays, sessions, text_shows, with_image, with_text, Decoded, ModuleAct, ModuleMessage,
    SetText,
};
use crate::renderer::{Effects, Renderer};
use crate::tab::{module_pos, ModuleKind, ModuleManifest, Tab, TabContentKind, TabId};
use crate::tab_tree::tab_pos;
use crate::tree::{Pane, PaneId, Scalar};
use vstd::prelude::*;
use vstd::utf8::{decode_utf8, encode_utf8, valid_utf8};

verus! {

proof fn lemma_pos(tabs: Seq<Tab>, k: int)
    requires
        0 <= k < tabs.len(),
        forall|i: int, j: int|
            0 <= i < j < tabs.len() ==> (#[trigger] tabs[i]).id != (#[trigger] tabs[j]).id,
    ensures
        tab_pos(tabs, tabs[k].id) == k,
    decreases tabs.len(),
{
    if k > 0 {
        let rest = tabs.drop_first();
        assert(tabs[0].id != tabs[k].id);
        assert forall|i: int, j: int| 0 <= i < j < rest.len() implies (#[trigger] rest[i]).id != (
        #[trigger] rest[j]).id by {
            assert(tabs[i + 1].id != tabs[j + 1].id);
        }
        lemma_pos(rest, k - 1);
    }
}

/// Tab `k` of the window became `u`, and every other tab stayed.
pub open spec fn only_tab_changed(before: Renderer, after: Renderer, k: int, u: Tab) -> bool {
    &&& after.ws.all().len() == before.ws.all().len()
    &&& after.ws.all()[k] == u
    &&& forall|i: int|
        0 <= i < before.ws.all().len() && i != k ==> #[trigger] after.ws.all()[i]
            == before.ws.all()[i]
    &&& after.ws.active_pane == before.ws.active_pane
}

/// A change to a tab by its id is a change to that tab alone.
pub proof fn law_change_by_id(before: Renderer, after: Renderer, k: int, u: Tab)
    requires
        before.wf(),
        0 <= k < before.ws.all().len(),
        after.tab_changed(before, before.ws.all()[k].id, u),
    ensures
        only_tab_changed(before, after, k, u),
{
    lemma_pos(before.ws.all(), k);
}

pub proof fn lemma_tab_at(r: Renderer, k: int)
    requires
        r.wf(),
        0 <= k < r.ws.all().len(),
    ensures
        r.ws.tree().has_tab(r.ws.all()[k].id),
        r.ws.tree().tab(r.ws.all()[k].id) == r.ws.all()[k],
{
    lemma_pos(r.ws.all(), k);
}

proof fn lemma_module_pos(ms: Seq<ModuleManifest>, i: int)
    requires
        0 <= i < ms.len(),
        forall|j: int| 0 <= j < i ==> (#[trigger] ms[j]).id@ != ms[i].id@,
    ensures
        module_pos(ms, ms[i].id@) == i,
    decreases ms.len(),
{
    if i > 0 {
        let rest = ms.drop_first();
        assert(ms[0].id@ != ms[i].id@);
        assert forall|j: int| 0 <= j < i - 1 implies (#[trigger] rest[j]).id@ != ms[i].id@ by {
            assert(ms[j + 1].id@ != ms[i].id@);
        }
        lemma_module_pos(rest, i - 1);
    }
}

proof fn lemma_no_module(ms: Seq<ModuleManifest>, id: Seq<char>)
    requires
        forall|j: int| 0 <= j < ms.len() ==> (#[trigger] ms[j]).id@ != id,
    ensures
        module_pos(ms, id) == ms.len(),
    decreases ms.len(),
{
    if ms.len() > 0 {
        assert(ms[0].id@ != id);
        let rest = ms.drop_first();
        assert forall|j: int| 0 <= j < rest.len() implies (#[trigger] rest[j]).id@ != id by {
            assert(ms[j + 1].id@ != id);
        }
        lemma_no_module(rest, id);
    }
}

/// What a kind needs to be started: a module what its manifest says, an agent
/// itself, and a shell or a page nothing. A module that is not registered cannot
/// be started. Only shells and modules with a terminal are drawn from one.
pub proof fn law_kind_needs_its_process(ms: Seq<ModuleManifest>, i: int, id: String, name: String)
    ensures
        launch(TabContentKind::Shell, ms) is Nothing,
        launch(TabContentKind::Welcome, ms) is Nothing,
        launch(TabContentKind::Agent(name), ms) is Agent,
        from_terminal(TabContentKind::Shell, ms),
        !from_terminal(TabContentKind::Welcome, ms),
        !from_terminal(TabContentKind::Agent(name), ms),
        (forall|j: int| 0 <= j < ms.len() ==> (#[trigger] ms[j]).id@ != id@) ==> launch(
            TabContentKind::Module(id),
            ms,
        ) is Nothing && !from_terminal(TabContentKind::Module(id), ms),
        0 <= i < ms.len() && ms[i].id@ == id@ && (forall|j: int|
            0 <= j < i ==> (#[trigger] ms[j]).id@ != id@) ==> {
            &&& ms[i].kind == ModuleKind::Data ==> launch(TabContentKind::Module(id), ms) is Data
            &&& ms[i].kind == ModuleKind::Tty ==> launch(TabContentKind::Module(id), ms) is Tty
            &&& from_terminal(TabContentKind::Module(id), ms) <==> ms[i].kind == ModuleKind::Tty
        },
{
    if forall|j: int| 0 <= j < ms.len() ==> (#[trigger] ms[j]).id@ != id@ {
        lemma_no_module(ms, id@);
    }
    if 0 <= i < ms.len() && ms[i].id@ == id@ && (forall|j: int|
        0 <= j < i ==> (#[trigger] ms[j]).id@ != id@) {
        lemma_module_pos(ms, i);
    }
}

/// A tab that is switched to another kind is of that kind, under its old id and
/// title, with nothing left of what it showed; a module or an agent that came up
/// starts empty, and one that did not is not there.
pub proof fn law_kind_is_switched(
    before: Renderer,
    after: Renderer,
    pid: PaneId,
    kind: TabContentKind,
    started: bool,
    e: Effects,
)
    requires
        before.wf(),
        before.ws.tree().has(pid),
        after.kind_set(before, pid, kind, started, e),
    ensures
        ({
            let t = before.ws.tree().pane(pid).shown();
            let u = after.ws.tree().tab(t.id);
            let l = launch(kind, before.modules@);
            &&& u.kind == kind
            &&& u.id == t.id
            &&& u.title == t.title
            &&& u.color_idx == t.color_idx
            &&& u.cols == t.cols && u.rows == t.rows
            &&& u.image is None && u.animation is None
            &&& u.last_module_body@.len() == 0
            &&& u.module_cursor is None && u.module_gutter is None && u.last_focused_path is None
            &&& !u.content_ready && u.buffer_dirty
            &&& u.module_pty == (l is Tty)
            &&& u.module_session is Some <==> l is Data && started
            &&& u.module_session matches Some(b) ==> b@.len() == 0
            &&& u.acp_session is Some <==> l is Agent && started
            &&& u.acp_session matches Some(s) ==> s.turns@.len() == 0 && s.draft@.len() == 0
        }),
        e.redraw,
        e.persist,
{
}

/// Keys go to what is in the tab, as they were typed: to the shell, to the
/// module's terminal or session, or to the agent. The welcome page passes them
/// on to the shell behind it.
pub proof fn law_keys_go_to_the_inhabitant(
    before: Renderer,
    after: Renderer,
    bytes: Vec<u8>,
    r: Written,
    e: Effects,
)
    requires
        after.wrote(before, bytes, r, e),
    ensures
        ({
            let t = before.ws.active_tab();
            &&& t.kind is Shell ==> r == Written::Shell(bytes)
            &&& t.kind is Welcome ==> r == Written::Shell(bytes)
            &&& t.kind is Module && t.module_pty ==> r == Written::Module(bytes)
            &&& t.kind is Module && !t.module_pty && t.module_session is Some ==> r
                == Written::Session(bytes)
            &&& t.kind is Module && !t.module_pty && t.module_session is None ==> r is Nothing
            &&& t.kind is Agent && t.acp_session is Some ==> r is Agent
            &&& !(r is Agent) ==> after == before
        }),
{
}

/// A key that goes to an agent changes its session and nothing else of its tab;
/// the text of the key is what its bytes spell, and nothing where they spell
/// none.
pub proof fn law_agent_hears_its_keys(
    before: Renderer,
    after: Renderer,
    key: Seq<char>,
    r: Written,
    e: Effects,
    bytes: Seq<u8>,
)
    requires
        after.agent_keyed(before, key, r, e),
    ensures
        ({
            let t = before.ws.active_tab();
            let u = after.ws.active_tab();
            &&& r is Agent
            &&& u.acp_session is Some
            &&& keyed(t.acp_session->0, u.acp_session->0, key, r->Agent_0)
            &&& u.id == t.id && u.kind == t.kind && u.title == t.title && u.selection
                == t.selection && u.module_scroll_y == t.module_scroll_y
            &&& r->Agent_0 is Nothing ==> !e.redraw && u.content_ready == t.content_ready
            &&& !(r->Agent_0 is Nothing) ==> e.redraw && !u.content_ready
        }),
        after.room == before.room,
        valid_utf8(bytes) ==> key_text(bytes) == decode_utf8(bytes),
        !valid_utf8(bytes) ==> key_text(bytes).len() == 0,
{
}

/// What an agent says changes the tab that hosts it, and no other; where no tab
/// hosts it, nothing happens.
pub proof fn law_agent_speaks_in_its_tab(
    before: Renderer,
    after: Renderer,
    k: int,
    event: AcpEvent,
    r: AcpReply,
    e: Effects,
)
    requires
        before.wf(),
        0 <= k < before.ws.all().len(),
        after.acp_heard(before, before.ws.all()[k].id, event, r, e),
    ensures
        before.ws.all()[k].acp_session is None ==> after == before && r is Nothing,
        before.ws.all()[k].acp_session is Some ==> {
            let t = before.ws.all()[k];
            let u = after.ws.all()[k];
            &&& only_tab_changed(before, after, k, u)
            &&& u.id == t.id && u.kind == t.kind && u.title == t.title
            &&& u.acp_session is Some
            &&& heard(t.acp_session->0, u.acp_session->0, event)
            &&& !u.content_ready
            &&& e.redraw
            &&& event is Initialized ==> r is NewSession
            &&& event is FsReadRequest ==> (r matches AcpReply::Read { request_id, path, .. }
                && request_id == event->FsReadRequest_request_id && path
                == event->FsReadRequest_path)
            &&& event is FsWriteRequest ==> (r matches AcpReply::Write { request_id, path, content }
                && request_id == event->FsWriteRequest_request_id && path
                == event->FsWriteRequest_path && content == event->FsWriteRequest_content)
            &&& !(event is Initialized || event is FsReadRequest || event is FsWriteRequest)
                ==> r is Nothing
        },
{
    lemma_tab_at(before, k);
    if before.ws.all()[k].acp_session is Some {
        law_change_by_id(before, after, k, after.ws.tree().tab(before.ws.all()[k].id));
    }
}

/// A module's text is what its tab shows from then on, with the cursor, the
/// labels and the marked line that came with it. A new text drops the picture,
/// and starts at its top, unless it says where.
pub proof fn law_module_text_is_shown(t: Tab, m: SetText)
    ensures
        ({
            let u = with_text(t, m);
            let new = t.last_module_body@ != m.body@;
            &&& u.last_module_body@ == m.body@
            &&& new && t.module_session is Some ==> u.module_session is Some
                && u.module_session->0@ == m.body@
            &&& u.module_cursor == m.cursor
            &&& u.module_highlight_line == m.highlight_line
            &&& u.module_gutter is Some <==> m.gutter is Some
            &&& u.module_gutter matches Some(g) ==> g@.len() == m.gutter->0@.len()
            &&& crate::text::opt_text(u.module_language) == crate::text::opt_text(m.language)
            &&& new ==> u.image is None && u.animation is None && !u.content_ready
            &&& new ==> u.module_highlights == m.highlights
            &&& new && m.scroll_to_line is None ==> u.module_scroll_y == Scalar(0)
            &&& m.scroll_to_line is Some ==> u.pending_ensure_visible == m.scroll_to_line
            &&& !new && m.scroll_to_line is None ==> u.module_scroll_y == t.module_scroll_y
            &&& !new ==> u.image == t.image && u.animation == t.animation
            &&& u.kind == t.kind && u.id == t.id && u.title == t.title
            &&& new ==> text_shows(t, m)
        }),
{
    let u = with_text(t, m);
    if !crate::messages::new_gutter(t, m) && m.gutter is Some {
        let a = crate::text::views(t.module_gutter->0@);
        let b = crate::text::views(m.gutter->0@);
        assert(crate::messages::labels_view(t.module_gutter) == Some(a));
        assert(a == b);
        assert(a.len() == t.module_gutter->0@.len());
        assert(b.len() == m.gutter->0@.len());
    }
}

/// A module's picture takes the place of its text: the picture that came, or the
/// frames of the animation in their order, from the first one on.
pub proof fn law_module_picture_is_shown(t: Tab, u: Tab, image: Decoded, now: u64, i: int)
    requires
        with_image(t, u, image, now),
    ensures
        u.last_module_body@.len() == 0,
        u.module_session matches Some(b) ==> b@.len() == 0,
        u.module_session is Some <==> t.module_session is Some,
        image matches Decoded::Still(h) ==> u.image == Some(h) && u.animation is None && image_of(
            u,
            now,
        ) == Some(h),
        image matches Decoded::Animated { frames, total_ms } ==> {
            &&& u.image is None
            &&& u.animation is Some
            &&& u.animation->0.frames@.len() == frames@.len()
            &&& 0 <= i < frames@.len() ==> u.animation->0.frames@[i] == frames@[i].texture
            &&& u.animation->0.total_ms == total_ms
            &&& u.animation->0.started_at == now
            &&& frames@.len() > 0 && frames@[0].delay > 0 && total_ms > 0 ==> image_of(u, now)
                == Some(frames@[0].texture)
        },
        u.kind == t.kind && u.id == t.id && u.title == t.title,
{
    if let Decoded::Animated { frames, total_ms } = image {
        let a = u.animation->0;
        if frames@.len() > 0 && frames@[0].delay > 0 && total_ms > 0 {
            assert(a.cumulative@[0] == shown_for(frames@.take(0int + 1)));
            reveal_with_fuel(shown_for, 3);
            assert(frames@.take(1).drop_last() =~= Seq::<Frame>::empty());
            assert(frames@.take(1).last() == frames@[0]);
            assert(a.elapsed(now) == 0);
            assert(0int % (a.total_ms as int) == 0) by (nonlinear_arith)
                requires
                    a.total_ms > 0,
            ;
            assert(a.frames@[0] == frames@[0].texture);
        }
    }
}

/// A message of a module changes its own tab and no other. A text of more than
/// sixteen mebibytes is dropped, and so is anything from a tab that is gone.
pub proof fn law_module_speaks_in_its_tab(
    before: Renderer,
    after: Renderer,
    k: int,
    m: SetText,
    now: u64,
    act: ModuleAct,
    e: Effects,
)
    requires
        before.wf(),
        0 <= k < before.ws.all().len(),
        after.messaged(before, before.ws.all()[k].id, ModuleMessage::SetText(m), now, act, e),
    ensures
        act is Nothing,
        encode_utf8(m.body@).len() > 16_777_216 ==> after == before && !e.redraw,
        encode_utf8(m.body@).len() <= 16_777_216 ==> only_tab_changed(
            before,
            after,
            k,
            with_text(before.ws.all()[k], m),
        ),
{
    lemma_tab_at(before, k);
    if encode_utf8(m.body@).len() <= 16_777_216 {
        law_change_by_id(before, after, k, with_text(before.ws.all()[k], m));
    }
}

/// What a module asks of the configuration is passed on as it was asked, and a
/// module that only logs changes nothing.
pub proof fn law_module_requests_are_passed_on(
    before: Renderer,
    after: Renderer,
    id: TabId,
    msg: ModuleMessage,
    now: u64,
    act: ModuleAct,
    e: Effects,
)
    requires
        after.messaged(before, id, msg, now, act, e),
    ensures
        msg is ConfigRequest ==> act is SendConfig && after == before,
        msg matches ModuleMessage::ConfigSet { name, value } ==> act == (ModuleAct::SetConfig {
            name,
            value,
        }) && after == before,
        msg is Log ==> act is Nothing && after == before,
        msg matches ModuleMessage::PublishFocus(path) ==> (act matches ModuleAct::Focus {
            path: p,
            ..
        } && p == path) && e.persist,
{
}

proof fn lemma_listed(tabs: Seq<Tab>, from: TabId, k: int)
    requires
        0 <= k < tabs.len(),
        tabs[k].id != from,
        tabs[k].module_session is Some,
    ensures
        listeners(tabs, from).contains(tabs[k].id),
    decreases tabs.len(),
{
    let rest = tabs.drop_last();
    let all = listeners(tabs, from);
    if k < rest.len() {
        lemma_listed(rest, from, k);
        let had = listeners(rest, from);
        let i = choose|i: int| 0 <= i < had.len() && had[i] == rest[k].id;
        assert(all[i] == tabs[k].id);
    } else {
        assert(all[all.len() - 1] == tabs[k].id);
    }
}

proof fn lemma_listed_from(tabs: Seq<Tab>, from: TabId, i: int)
    requires
        0 <= i < listeners(tabs, from).len(),
    ensures
        exists|k: int|
            0 <= k < tabs.len() && (#[trigger] tabs[k]).id == listeners(tabs, from)[i]
                && tabs[k].id != from && tabs[k].module_session is Some,
    decreases tabs.len(),
{
    let rest = tabs.drop_last();
    let had = listeners(rest, from);
    if i < had.len() {
        lemma_listed_from(rest, from, i);
        let k = choose|k: int|
            0 <= k < rest.len() && (#[trigger] rest[k]).id == had[i] && rest[k].id != from
                && rest[k].module_session is Some;
        assert(tabs[k] == rest[k]);
    } else {
        assert(tabs[tabs.len() - 1].id == listeners(tabs, from)[i]);
    }
}

/// A file that one module focuses on is told to every other module that runs,
/// and noted with it, but not to the one it came from, nor to a tab without a
/// module.
pub proof fn law_focus_reaches_the_other_modules(
    before: Renderer,
    after: Renderer,
    from: TabId,
    path: String,
    now: u64,
    act: ModuleAct,
    e: Effects,
    k: int,
    i: int,
)
    requires
        after.messaged(before, from, ModuleMessage::PublishFocus(path), now, act, e),
        0 <= k < before.ws.all().len(),
    ensures
        act is Focus,
        ({
            let t = before.ws.all()[k];
            let u = after.ws.all()[k];
            let to = act->to@;
            &&& t.id != from && t.module_session is Some ==> u.last_focused_path == Some(path)
                && to.contains(t.id)
            &&& t.id == from || t.module_session is None ==> u == t
            &&& u.id == t.id && u.kind == t.kind && u.module_session == t.module_session
            &&& 0 <= i < to.len() ==> to[i] != from
        }),
        after.room == before.room,
        after.find == before.find,
        after.ws.active_pane == before.ws.active_pane,
{
    let t = before.ws.all()[k];
    if t.id != from && t.module_session is Some {
        lemma_listed(before.ws.all(), from, k);
    }
    if 0 <= i < act->to@.len() {
        lemma_listed_from(before.ws.all(), from, i);
    }
}

/// When the directory changes every module that runs is told, each once, in the
/// order of the window.
pub proof fn law_all_sessions_are_told(tabs: Seq<Tab>)
    ensures
        sessions(tabs) == tabs.filter(|t: Tab| t.module_session is Some).map_values(
            |t: Tab| t.id,
        ),
    decreases tabs.len(),
{
    reveal(Seq::filter);
    let f = |t: Tab| t.module_session is Some;
    let g = |t: Tab| t.id;
    if tabs.len() > 0 {
        let rest = tabs.drop_last();
        law_all_sessions_are_told(rest);
        if tabs.last().module_session is Some {
            assert(rest.filter(f).push(tabs.last()).map_values(g) =~= rest.filter(f).map_values(
                g,
            ).push(tabs.last().id));
        }
    }
    assert(sessions(tabs) =~= tabs.filter(f).map_values(g));
}

/// A tab without a terminal shows the text that its module sent last; until it
/// has sent one, which module it is; an agent's tab shows the conversation.
pub proof fn law_body_is_what_was_sent(t: Tab, ms: Seq<ModuleManifest>, i: int)
    ensures
        t.module_session is Some && t.module_session->0@.len() > 0 ==> body_text(t, ms)
            == t.module_session->0@,
        t.module_session is None && t.kind is Agent && t.acp_session is Some ==> body_text(t, ms)
            == crate::acp::acp_body(t.acp_session->0),
        t.module_session is None && t.kind is Agent && t.acp_session is None ==> body_text(
            t,
            ms,
        ).len() == 0,
        t.module_session is None && t.kind is Shell ==> body_text(t, ms).len() == 0,
        t.module_session is None && (t.kind matches TabContentKind::Module(id) && 0 <= i < ms.len()
            && ms[i].id@ == id@ && forall|j: int| 0 <= j < i ==> (#[trigger] ms[j]).id@ != id@)
            ==> body_text(t, ms) == "module: "@ + ms[i].name@ + "  (v"@ + ms[i].version@
            + ")\nbinary: "@ + ms[i].binary@ + "\nwaiting for the module to send its first frame…"@,
        t.module_session is None && (t.kind matches TabContentKind::Module(id) && forall|j: int|
            0 <= j < ms.len() ==> (#[trigger] ms[j]).id@ != id@) ==> body_text(t, ms) == "module '"@
            + t.kind->Module_0@
            + "' is no longer registered.\npick a different kind from the dropdown."@,
{
    if let TabContentKind::Module(id) = t.kind {
        if 0 <= i < ms.len() && ms[i].id@ == id@ && (forall|j: int|
            0 <= j < i ==> (#[trigger] ms[j]).id@ != id@) {
            lemma_module_pos(ms, i);
        }
        if forall|j: int| 0 <= j < ms.len() ==> (#[trigger] ms[j]).id@ != id@ {
            lemma_no_module(ms, id@);
        }
    }
}

/// The tab bar marks the tab on show, brightly in the focused pane and dimly in
/// any other, and bands each tab in the colour that it was given.
pub proof fn law_tab_bar_marks_the_tab_on_show(p: Pane, i: int, focused: bool)
    ensures
        i == p.active_tab && focused ==> mark_of(p, i, focused).underline == Underline::Bright,
        i == p.active_tab && !focused ==> mark_of(p, i, focused).underline == Underline::Dim,
        i != p.active_tab ==> mark_of(p, i, focused).underline == Underline::Plain,
        p.tabs@[i].color_idx == 0 ==> mark_of(p, i, focused).band is None,
        p.tabs@[i].color_idx != 0 ==> mark_of(p, i, focused).band == Some(p.tabs@[i].color_idx),
{
}

/// Every tab of a pane has its mark, in order.
pub proof fn law_every_tab_is_marked(w: Renderer, pid: PaneId, r: Vec<TabMark>, i: int)
    requires
        w.marks_shown(pid, r),
        0 <= i < w.ws.tree().pane(pid).tabs@.len(),
    ensures
        ({
            let p = w.ws.tree().pane(pid);
            &&& r@.len() == p.tabs@.len()
            &&& i == p.active_tab && pid == w.ws.active_pane ==> r@[i].underline
                == Underline::Bright
            &&& i == p.active_tab && pid != w.ws.active_pane ==> r@[i].underline == Underline::Dim
            &&& i != p.active_tab ==> r@[i].underline == Underline::Plain
            &&& p.tabs@[i].color_idx != 0 ==> r@[i].band == Some(p.tabs@[i].color_idx)
        }),
{
}

/// A picture that a program sends to be shown is that of its tab from then on;
/// one that is not to be shown, or that could not be read, changes nothing.
pub proof fn law_sent_picture_is_shown(
    before: Renderer,
    after: Renderer,
    k: int,
    action: GraphicsAction,
    image: Option<u64>,
    e: Effects,
)
    requires
        before.wf(),
        0 <= k < before.ws.all().len(),
        after.picture_taken(before, before.ws.all()[k].id, action, image, e),
    ensures
        action == GraphicsAction::TransmitDisplay && image is Some ==> only_tab_changed(
            before,
            after,
            k,
            (Tab { image, ..before.ws.all()[k] }),
        ) && e.redraw,
        action != GraphicsAction::TransmitDisplay || image is None ==> after == before && !e.redraw,
{
    lemma_tab_at(before, k);
    if action == GraphicsAction::TransmitDisplay && image is Some {
        law_change_by_id(before, after, k, Tab { image, ..before.ws.all()[k] });
    }
}

/// Two tabs are of the same kind where both are shells, both are the welcome
/// page, both run the module of one id, or both host the agent of one name.
pub proof fn law_same_kind_is_the_same(a: TabContentKind, b: TabContentKind)
    ensures
        same_kind(a, b) <==> same_kind(b, a),
        same_kind(a, a),
        a is Shell ==> (same_kind(a, b) <==> b is Shell),
        a is Welcome ==> (same_kind(a, b) <==> b is Welcome),
        a is Module && b is Module ==> (same_kind(a, b) <==> a->Module_0@ == b->Module_0@),
        a is Agent && b is Agent ==> (same_kind(a, b) <==> a->Agent_0@ == b->Agent_0@),
        a is Module && !(b is Module) ==> !same_kind(a, b),
        a is Agent && !(b is Agent) ==> !same_kind(a, b),
{
}

/// The size of an animation is that of its largest frame.
pub proof fn law_largest_is_the_largest(sizes: Seq<u32>, i: int)
    requires
        0 <= i < sizes.len(),
    ensures
        largest(sizes) >= sizes[i],
        exists|k: int| 0 <= k < sizes.len() && #[trigger] sizes[k] == largest(sizes),
    decreases sizes.len(),
{
    let rest = sizes.drop_last();
    if rest.len() > 0 {
        law_largest_is_the_largest(rest, 0);
        if i < rest.len() {
            law_largest_is_the_largest(rest, i);
            assert(rest[i] == sizes[i]);
        }
        let k = choose|k: int| 0 <= k < rest.len() && #[trigger] rest[k] == largest(rest);
        assert(sizes[k] == rest[k]);
        assert(sizes[sizes.len() - 1] == sizes.last());
    } else {
        assert(largest(rest) == 0);
        assert(sizes[0] == sizes.last());
    }
}

/// An animation has room for each of its frames, and shows their pictures in
/// order.
pub proof fn law_animation_has_room_for_its_frames(
    a: TabAnimation,
    frames: Seq<Frame>,
    total_ms: u64,
    now: u64,
    i: int,
)
    requires
        plays(a, frames, total_ms, now),
        0 <= i < frames.len(),
    ensures
        a.width >= frames[i].width,
        a.height >= frames[i].height,
        exists|k: int| 0 <= k < frames.len() && (#[trigger] frames[k]).width == a.width,
        exists|k: int| 0 <= k < frames.len() && (#[trigger] frames[k]).height == a.height,
        a.frames@.len() == frames.len(),
        a.frames@[i] == frames[i].texture,
        a.started_at == now,
        a.total_ms == total_ms,
{
    let w = frames.map_values(|f: Frame| f.width);
    let h = frames.map_values(|f: Frame| f.height);
    law_largest_is_the_largest(w, i);
    law_largest_is_the_largest(h, i);
    assert(w[i] == frames[i].width && h[i] == frames[i].height);
    let k = choose|k: int| 0 <= k < w.len() && #[trigger] w[k] == largest(w);
    assert(frames[k].width == a.width);
    let m = choose|m: int| 0 <= m < h.len() && #[trigger] h[m] == largest(h);
    assert(frames[m].height == a.height);
}

} // verus!

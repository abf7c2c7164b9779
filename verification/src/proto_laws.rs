//! What a client of the socket can rely on: each method does what it is named
//! after, on what it was asked about, and looking does not change anything.

use crate::proto::{verb_named, ProtoStep, Verb};
use crate::proto_room::Asking;
use crate::json::Params;
use crate::renderer::{Effects, Renderer};
use crate::tab::TabId;
use crate::wire::OutPayload;
use vstd::prelude::*;

verus! {

/// Every method goes by its own name.
pub proof fn law_methods_go_by_their_names()
    ensures
        verb_named("list_tabs"@) == Some(Verb::ListTabs),
        verb_named("list_blocks"@) == Some(Verb::ListBlocks),
        verb_named("get_block"@) == Some(Verb::GetBlock),
        verb_named("subscribe"@) == Some(Verb::Subscribe),
        verb_named("set_tag"@) == Some(Verb::SetTag),
        verb_named("remove_tag"@) == Some(Verb::RemoveTag),
        verb_named("cursor_at"@) == Some(Verb::CursorAt),
        verb_named("cursor_clear"@) == Some(Verb::CursorClear),
        verb_named("export_tab"@) == Some(Verb::ExportTab),
        verb_named("stats"@) == Some(Verb::Stats),
        verb_named("list_modules"@) == Some(Verb::ListModules),
        verb_named("reload_modules"@) == Some(Verb::ReloadModules),
        verb_named("activities_list"@) == Some(Verb::ActivitiesList),
        verb_named("activity_emit"@) == Some(Verb::ActivityEmit),
        verb_named("room_join"@) == Some(Verb::RoomJoin),
        verb_named("room_who"@) == Some(Verb::RoomWho),
        verb_named("tool_emit"@) == Some(Verb::ToolEmit),
        verb_named("file_claim"@) == Some(Verb::FileClaim),
        verb_named("file_release"@) == Some(Verb::FileRelease),
        verb_named("file_status"@) == Some(Verb::FileStatus),
        verb_named("files"@) == Some(Verb::Files),
        verb_named("room_subscribe"@) == Some(Verb::RoomSubscribe),
        verb_named("room_ack"@) == Some(Verb::RoomAck),
{
    reveal_strlit("list_tabs");
    reveal_strlit("list_blocks");
    reveal_strlit("get_block");
    reveal_strlit("subscribe");
    reveal_strlit("set_tag");
    reveal_strlit("remove_tag");
    reveal_strlit("cursor_at");
    reveal_strlit("cursor_clear");
    reveal_strlit("export_tab");
    reveal_strlit("stats");
    reveal_strlit("list_modules");
    reveal_strlit("reload_modules");
    reveal_strlit("activities_list");
    reveal_strlit("activity_emit");
    reveal_strlit("room_join");
    reveal_strlit("room_who");
    reveal_strlit("tool_emit");
    reveal_strlit("file_claim");
    reveal_strlit("file_release");
    reveal_strlit("file_status");
    reveal_strlit("files");
    reveal_strlit("room_subscribe");
    reveal_strlit("room_ack");
    assert("list_tabs"@.len() == 9);
    assert("list_blocks"@.len() == 11);
    assert("get_block"@.len() == 9);
    assert("subscribe"@.len() == 9);
    assert("set_tag"@.len() == 7);
    assert("remove_tag"@.len() == 10);
    assert("cursor_at"@.len() == 9);
    assert("cursor_clear"@.len() == 12);
    assert("export_tab"@.len() == 10);
    assert("stats"@.len() == 5);
    assert("list_modules"@.len() == 12);
    assert("reload_modules"@.len() == 14);
    assert("activities_list"@.len() == 15);
    assert("activity_emit"@.len() == 13);
    assert("room_join"@.len() == 9);
    assert("room_who"@.len() == 8);
    assert("tool_emit"@.len() == 9);
    assert("file_claim"@.len() == 10);
    assert("file_release"@.len() == 12);
    assert("file_status"@.len() == 11);
    assert("files"@.len() == 5);
    assert("room_subscribe"@.len() == 14);
    assert("room_ack"@.len() == 8);
    assert("list_tabs"@[0] != "get_block"@[0]);
    assert("list_tabs"@[0] != "subscribe"@[0]);
    assert("get_block"@[0] != "subscribe"@[0]);
    assert("list_tabs"@[0] != "cursor_at"@[0]);
    assert("get_block"@[0] != "cursor_at"@[0]);
    assert("subscribe"@[0] != "cursor_at"@[0]);
    assert("remove_tag"@[0] != "export_tab"@[0]);
    assert("cursor_clear"@[0] != "list_modules"@[0]);
    assert("list_tabs"@[0] != "room_join"@[0]);
    assert("get_block"@[0] != "room_join"@[0]);
    assert("subscribe"@[0] != "room_join"@[0]);
    assert("cursor_at"@[0] != "room_join"@[0]);
    assert("list_tabs"@[0] != "tool_emit"@[0]);
    assert("get_block"@[0] != "tool_emit"@[0]);
    assert("subscribe"@[0] != "tool_emit"@[0]);
    assert("cursor_at"@[0] != "tool_emit"@[0]);
    assert("room_join"@[0] != "tool_emit"@[0]);
    assert("remove_tag"@[0] != "file_claim"@[0]);
    assert("export_tab"@[0] != "file_claim"@[0]);
    assert("cursor_clear"@[0] != "file_release"@[0]);
    assert("list_modules"@[0] != "file_release"@[0]);
    assert("list_blocks"@[0] != "file_status"@[0]);
    assert("stats"@[0] != "files"@[0]);
    assert("reload_modules"@[1] != "room_subscribe"@[1]);
    assert("room_who"@[5] != "room_ack"@[5]);
}

/// `s` is a refusal.
pub open spec fn is_refusal(s: ProtoStep) -> bool {
    s matches ProtoStep::Reply(OutPayload::Error { .. })
}

/// A method that there is not is refused by its name, and nothing happens.
pub proof fn law_unknown_method_is_refused(
    before: Renderer,
    after: Renderer,
    method: Seq<char>,
    p: Params,
    a: Asking,
    s: ProtoStep,
    e: Effects,
)
    requires
        after.answered(before, method, p, a, s, e),
        verb_named(method) is None,
    ensures
        after == before,
        s matches ProtoStep::Reply(OutPayload::Error { message }) && message@
            == "unknown method: "@ + method,
{
}

/// Only three methods change anything here: to subscribe, to receive, and to
/// report a tool. The others look, or tell the host what to do.
pub proof fn law_looking_changes_nothing(
    before: Renderer,
    after: Renderer,
    method: Seq<char>,
    p: Params,
    a: Asking,
    s: ProtoStep,
    e: Effects,
)
    requires
        after.answered(before, method, p, a, s, e),
        method != "subscribe"@,
        method != "room_subscribe"@,
        method != "tool_emit"@,
    ensures
        after == before,
{
}

/// A message with an author, a text and the right kind is recorded as it was
/// written: from its author, to whom it names, in its own words. Without one of
/// these it is refused.
pub proof fn law_message_is_recorded_as_written(
    before: Renderer,
    after: Renderer,
    p: Params,
    a: Asking,
    s: ProtoStep,
    e: Effects,
)
    requires
        after.answered(before, "activity_emit"@, p, a, s, e),
    ensures
        p.actor is None ==> is_refusal(s),
        p.kind is None ==> is_refusal(s),
        p.text is None ==> is_refusal(s),
        p.kind is Some && p.kind->0@ != "agent_message"@ ==> is_refusal(s),
        p.actor is Some && p.actor->0@.len() == 0 ==> is_refusal(s),
        is_refusal(s) || s is Emit,
        s matches ProtoStep::Emit { message } ==> {
            &&& p.actor matches Some(x) && message.actor@ == x@
            &&& p.text matches Some(t) && message.text@ == t@
            &&& p.to is None ==> message.to is None
            &&& p.to matches Some(to) ==> (message.to matches Some(t) && t@ == to@)
        },
        p.actor is Some && p.actor->0@.len() > 0 && p.kind is Some && p.kind->0@
            == "agent_message"@ && p.text is Some && !crate::text::blank(p.text->0@) ==> s is Emit,
{
    law_methods_go_by_their_names();
    reveal_strlit("agent_message");
    assert("agent_message"@.len() == 13);
    assert(crate::text::blank(Seq::<char>::empty())) by {
        reveal_with_fuel(crate::text::trimmed_start, 1);
        reveal_with_fuel(crate::text::trimmed_end, 1);
    }
}

/// A claim is made for who asks and on the path that they name; without either
/// it is refused. A release and a question go by the path that is named.
pub proof fn law_claims_go_by_actor_and_path(
    before: Renderer,
    after: Renderer,
    p: Params,
    a: Asking,
    s: ProtoStep,
    e: Effects,
    actor: String,
    path: String,
)
    requires
        p.actor == Some(actor),
        p.path == Some(path),
    ensures
        after.answered(before, "file_claim"@, p, a, s, e) ==> if actor@.len() > 0 && path@.len()
            > 0 {
            s matches ProtoStep::Claim { actor: x, path: y } && x@ == actor@ && y@ == path@
        } else {
            is_refusal(s)
        },
        after.answered(before, "file_release"@, p, a, s, e) ==> (
        s matches ProtoStep::Release { actor: x, path: y } && x@ == actor@ && y@ == path@),
        after.answered(before, "file_status"@, p, a, s, e) ==> (s matches ProtoStep::Status {
            path: y,
        } && y@ == path@),
        after.answered(before, "files"@, p, a, s, e) ==> s is Files,
{
    law_methods_go_by_their_names();
}

/// Who asks to receive has the connection that they asked over as their
/// receiver from then on; nobody else's receiver changes, and nothing that
/// waits is lost. Without a name there is nobody to receive for.
pub proof fn law_receiver_is_who_asked(
    before: Renderer,
    after: Renderer,
    p: Params,
    a: Asking,
    s: ProtoStep,
    e: Effects,
    actor: String,
    other: Seq<char>,
)
    requires
        after.answered(before, "room_subscribe"@, p, a, s, e),
        p.actor == Some(actor),
    ensures
        actor@.len() == 0 ==> is_refusal(s) && after == before,
        actor@.len() > 0 ==> {
            &&& s is CatchUp
            &&& after.room.actor(actor@).conn == Some(a.conn)
            &&& after.room.actor(actor@).pending == before.room.actor(actor@).pending
            &&& other != actor@ ==> after.room.actor(other) == before.room.actor(other)
            &&& after.ws == before.ws
        },
{
    law_methods_go_by_their_names();
    let x = crate::room::ActorState { conn: Some(a.conn), ..before.room.actor(actor@) };
    let n = crate::room::resolved(a.store@, x.pending).len();
    let on = before.config.comms_delivery;
    crate::room_laws::law_push_keeps_pending(x, on, a.now_ms, n, 0, false, 0);
    crate::delivery_laws::lemma_keeps_conn(x, on, a.now_ms, n);
}

/// The one who subscribes to events is the connection that asked.
pub proof fn law_subscriber_is_who_asked(
    before: Renderer,
    after: Renderer,
    p: Params,
    a: Asking,
    s: ProtoStep,
    e: Effects,
)
    requires
        after.answered(before, "subscribe"@, p, a, s, e),
    ensures
        after.proto_subscriber == Some(a.conn),
        s == ProtoStep::Reply(OutPayload::Subscribed),
        after.ws == before.ws,
        after.room == before.room,
{
    law_methods_go_by_their_names();
}

/// All tabs are listed, in the order of the window, each under its id and with
/// its title.
pub proof fn law_all_tabs_are_listed(
    before: Renderer,
    after: Renderer,
    p: Params,
    a: Asking,
    s: ProtoStep,
    e: Effects,
    i: int,
)
    requires
        after.answered(before, "list_tabs"@, p, a, s, e),
        0 <= i < before.ws.tree().tabs().len(),
    ensures
        s matches ProtoStep::Reply(OutPayload::Tabs { tabs }) && {
            &&& tabs@.len() == before.ws.tree().tabs().len()
            &&& tabs@[i].tab_id == before.ws.tree().tabs()[i].id.0
            &&& tabs@[i].title == before.ws.tree().tabs()[i].title
        },
{
    law_methods_go_by_their_names();
    if let ProtoStep::Reply(OutPayload::Tabs { tabs }) = s {
        assert(tabs@[i].tab_id == before.ws.all()[i].id.0);
    }
}

/// A question about a tab is about that tab: it is refused where there is no
/// such tab, and otherwise put to it, with the block and the tag that it names.
pub proof fn law_questions_go_to_their_tab(
    before: Renderer,
    after: Renderer,
    p: Params,
    a: Asking,
    s: ProtoStep,
    e: Effects,
    tab: u64,
    block: u32,
    tag: String,
)
    requires
        p.tab_id == Some(tab),
        p.block_id == Some(block as u64),
        p.tag == Some(tag),
        p.since == Some(block as u64),
    ensures
        ({
            let there = before.ws.tree().has_tab(TabId(tab));
            &&& after.answered(before, "list_blocks"@, p, a, s, e) ==> if there {
                s == (ProtoStep::Blocks { tab_id: tab })
            } else {
                is_refusal(s)
            }
            &&& after.answered(before, "get_block"@, p, a, s, e) ==> if there {
                s == (ProtoStep::Block { tab_id: tab, block_id: block })
            } else {
                is_refusal(s)
            }
            &&& after.answered(before, "set_tag"@, p, a, s, e) ==> if there {
                s == (ProtoStep::SetTag { tab_id: tab, block_id: block, tag })
            } else {
                is_refusal(s)
            }
            &&& after.answered(before, "remove_tag"@, p, a, s, e) ==> if there {
                s == (ProtoStep::RemoveTag { tab_id: tab, block_id: block, tag })
            } else {
                is_refusal(s)
            }
            &&& after.answered(before, "cursor_at"@, p, a, s, e) ==> if there {
                s == (ProtoStep::CursorAt { tab_id: tab, block_id: block })
            } else {
                is_refusal(s)
            }
            &&& after.answered(before, "cursor_clear"@, p, a, s, e) ==> if there {
                s == (ProtoStep::CursorClear { tab_id: tab })
            } else {
                is_refusal(s)
            }
            &&& after.answered(before, "export_tab"@, p, a, s, e) ==> if there {
                s == (ProtoStep::Export { tab_id: tab, since: Some(block) })
            } else {
                is_refusal(s)
            }
        }),
{
    law_methods_go_by_their_names();
}

/// A question about a tab that names none is refused, and so is one about a
/// block or a tag that names none.
pub proof fn law_questions_need_names(
    before: Renderer,
    after: Renderer,
    method: Seq<char>,
    p: Params,
    a: Asking,
    s: ProtoStep,
    e: Effects,
)
    requires
        after.answered(before, method, p, a, s, e),
    ensures
        p.tab_id is None && (method == "list_blocks"@ || method == "get_block"@ || method
            == "set_tag"@ || method == "remove_tag"@ || method == "cursor_at"@ || method
            == "cursor_clear"@ || method == "export_tab"@) ==> is_refusal(s),
        p.block_id is None && (method == "get_block"@ || method == "set_tag"@ || method
            == "remove_tag"@ || method == "cursor_at"@) ==> is_refusal(s),
        p.tag is None && (method == "set_tag"@ || method == "remove_tag"@) ==> is_refusal(s),
{
    law_methods_go_by_their_names();
}

/// A message that a receiver has surfaced is acknowledged by its id, and
/// activities are looked up by what was asked for.
pub proof fn law_acks_and_filters_are_passed_on(
    before: Renderer,
    after: Renderer,
    p: Params,
    a: Asking,
    s: ProtoStep,
    e: Effects,
)
    ensures
        after.answered(before, "room_ack"@, p, a, s, e) && p.message_id is Some ==> s
            == (ProtoStep::Ack { message_id: p.message_id->0 }),
        after.answered(before, "activities_list"@, p, a, s, e) ==> s == (ProtoStep::Activities {
            actor: p.actor,
            to: p.to,
            kind: p.kind,
        }),
        after.answered(before, "room_who"@, p, a, s, e) ==> s is RoomWho,
        after.answered(before, "stats"@, p, a, s, e) ==> s is Stats,
        after.answered(before, "reload_modules"@, p, a, s, e) ==> s is ReloadModules,
        after.answered(before, "list_modules"@, p, a, s, e) ==> (s matches ProtoStep::Reply(
            OutPayload::Modules { modules },
        ) && modules@ == before.modules@),
{
    law_methods_go_by_their_names();
}

/// Who joins does so under the name that they give, without the white space
/// around it, as an agent where they give none; and in the pane that they name,
/// or else in the one that their process runs in.
pub proof fn law_joining(
    before: Renderer,
    after: Renderer,
    p: Params,
    a: Asking,
    s: ProtoStep,
    e: Effects,
)
    requires
        after.answered(before, "room_join"@, p, a, s, e),
    ensures
        s matches ProtoStep::Join { base, pane } && {
            &&& p.base is None ==> base@ == "agent"@
            &&& p.base is Some && crate::text::blank(p.base->0@) ==> base@ == "agent"@
            &&& p.base is Some && !crate::text::blank(p.base->0@) ==> base@
                == crate::text::trimmed(p.base->0@)
            &&& p.pane is Some ==> pane == p.pane
            &&& p.pane is None ==> pane == a.peer_pane
        },
{
    law_methods_go_by_their_names();
}

/// A tool is reported for who sits in the pane, who is awake by that; where
/// nobody sits there nothing is reported.
pub proof fn law_tool_is_reported(
    before: Renderer,
    after: Renderer,
    p: Params,
    a: Asking,
    s: ProtoStep,
    e: Effects,
    i: int,
    other: Seq<char>,
)
    requires
        after.answered(before, "tool_emit"@, p, a, s, e),
        0 <= i < a.panes@.len(),
        p.pane == Some(a.panes@[i].pane),
        forall|j: int| 0 <= j < i ==> (#[trigger] a.panes@[j]).pane != a.panes@[i].pane,
    ensures
        s matches ProtoStep::RecordTool { slug, tool, title, .. } && {
            &&& slug@ == a.panes@[i].slug@
            &&& p.tool matches Some(t) ==> tool@ == t@
            &&& p.title matches Some(t) ==> title@ == t@
        },
        after.room.actor(a.panes@[i].slug@).last_activity == Some(a.now),
        after.room.actor(a.panes@[i].slug@).watch is None,
        after.room.actor(a.panes@[i].slug@).pending == before.room.actor(
            a.panes@[i].slug@,
        ).pending,
        other != a.panes@[i].slug@ ==> after.room.actor(other) == before.room.actor(other),
{
    law_methods_go_by_their_names();
    lemma_slug_in(a.panes@, i);
}

proof fn lemma_slug_in(panes: Seq<crate::floor::SlugPane>, i: int)
    requires
        0 <= i < panes.len(),
        forall|j: int| 0 <= j < i ==> (#[trigger] panes[j]).pane != panes[i].pane,
    ensures
        crate::proto_room::slug_in(panes, panes[i].pane) == Some(panes[i].slug@),
    decreases panes.len(),
{
    if i > 0 {
        let rest = panes.drop_first();
        assert(panes[0].pane != panes[i].pane);
        assert forall|j: int| 0 <= j < i - 1 implies (#[trigger] rest[j]).pane != panes[i].pane by {
            assert(panes[j + 1].pane != panes[i].pane);
        }
        lemma_slug_in(rest, i - 1);
    }
}

/// `s` refuses in these words.
pub open spec fn refused_as(s: ProtoStep, words: Seq<char>) -> bool {
    s matches ProtoStep::Reply(OutPayload::Error { message }) && message@ == words
}

/// A refusal says what is missing.
pub proof fn law_refusals_say_why(
    before: Renderer,
    after: Renderer,
    p: Params,
    a: Asking,
    s: ProtoStep,
    e: Effects,
)
    ensures
        p.tab_id is None && (after.answered(before, "list_blocks"@, p, a, s, e) || after.answered(
            before,
            "get_block"@,
            p,
            a,
            s,
            e,
        ) || after.answered(before, "export_tab"@, p, a, s, e) || after.answered(
            before,
            "cursor_clear"@,
            p,
            a,
            s,
            e,
        )) ==> refused_as(s, "missing or invalid tab_id"@),
        p.tab_id is Some && p.block_id is None && after.answered(
            before,
            "get_block"@,
            p,
            a,
            s,
            e,
        ) ==> refused_as(s, "missing or invalid block_id"@),
        p.block_id is None && (after.answered(before, "set_tag"@, p, a, s, e) || after.answered(
            before,
            "remove_tag"@,
            p,
            a,
            s,
            e,
        ) || after.answered(before, "cursor_at"@, p, a, s, e)) ==> refused_as(
            s,
            "missing or invalid block_id"@,
        ),
        p.block_id is Some && p.tag is None && (after.answered(before, "set_tag"@, p, a, s, e)
            || after.answered(before, "remove_tag"@, p, a, s, e)) ==> refused_as(
            s,
            "missing or invalid tag"@,
        ),
        p.actor is None && after.answered(before, "room_subscribe"@, p, a, s, e) ==> refused_as(
            s,
            "room_subscribe: missing actor"@,
        ),
        (p.actor is None || p.path is None) && after.answered(
            before,
            "file_claim"@,
            p,
            a,
            s,
            e,
        ) ==> refused_as(s, "file_claim: needs a room actor and a path"@),
        p.actor is None && after.answered(before, "activity_emit"@, p, a, s, e) ==> refused_as(
            s,
            "activity_emit: missing actor — only a hosted agent with a room slug can emit"@,
        ),
        p.actor is Some && p.actor->0@.len() > 0 && p.kind is Some && p.kind->0@
            == "agent_message"@ && p.text is Some && p.text->0@.len() == 0 && after.answered(
            before,
            "activity_emit"@,
            p,
            a,
            s,
            e,
        ) ==> refused_as(s, "activity_emit: empty text"@),
{
    law_methods_go_by_their_names();
    reveal_strlit("agent_message");
}

/// A question about a tab that there is not is refused by the tab's number.
pub proof fn law_gone_tab_is_named(
    before: Renderer,
    after: Renderer,
    p: Params,
    a: Asking,
    s: ProtoStep,
    e: Effects,
    tab: u64,
)
    requires
        p.tab_id == Some(tab),
        p.block_id is Some,
        p.tag is Some,
        !before.ws.tree().has_tab(crate::tab::TabId(tab)),
        after.answered(before, "list_blocks"@, p, a, s, e) || after.answered(
            before,
            "get_block"@,
            p,
            a,
            s,
            e,
        ) || after.answered(before, "export_tab"@, p, a, s, e) || after.answered(
            before,
            "set_tag"@,
            p,
            a,
            s,
            e,
        ) || after.answered(before, "remove_tag"@, p, a, s, e) || after.answered(
            before,
            "cursor_at"@,
            p,
            a,
            s,
            e,
        ) || after.answered(before, "cursor_clear"@, p, a, s, e),
    ensures
        refused_as(s, "no tab with id "@ + crate::text::digits(tab as nat)),
{
    law_methods_go_by_their_names();
}

/// A tool that nobody can be named for is answered, and reported for nobody.
pub proof fn law_nameless_tool_is_not_reported(
    before: Renderer,
    after: Renderer,
    p: Params,
    a: Asking,
    s: ProtoStep,
    e: Effects,
)
    requires
        after.answered(before, "tool_emit"@, p, a, s, e),
        p.pane is None,
        a.peer_pane is None,
    ensures
        after == before,
        s == ProtoStep::Reply(OutPayload::Done),
        !e.redraw,
{
    law_methods_go_by_their_names();
}

/// What changes the blocks of a tab is drawn; a refusal for want of a block's
/// number is not.
pub proof fn law_block_changes_are_drawn(
    before: Renderer,
    after: Renderer,
    p: Params,
    a: Asking,
    s: ProtoStep,
    e: Effects,
)
    requires
        after.answered(before, "set_tag"@, p, a, s, e) || after.answered(
            before,
            "remove_tag"@,
            p,
            a,
            s,
            e,
        ) || after.answered(before, "cursor_at"@, p, a, s, e),
        p.tag is Some,
    ensures
        p.block_id is Some ==> e.redraw && !e.relayout && !e.persist,
        p.block_id is None ==> !e.redraw,
{
    law_methods_go_by_their_names();
}

/// A cursor that is cleared is drawn so.
pub proof fn law_cleared_cursor_is_drawn(
    before: Renderer,
    after: Renderer,
    p: Params,
    a: Asking,
    s: ProtoStep,
    e: Effects,
)
    requires
        after.answered(before, "cursor_clear"@, p, a, s, e),
    ensures
        e.redraw,
        !e.relayout,
{
    law_methods_go_by_their_names();
}

} // verus!

//! Requests about the room, and the dispatch of all requests.

use crate::floor::SlugPane;
use crate::json::Params;
use crate::proto::{
    parse_verb, refuses, text_of, text_or, verb_named, ProtoStep, Verb,
};
use crate::renderer::{draw, no_effects, nothing, redraw, Effects, Renderer};
use crate::room::{
    acknowledged, catch_up, caught_up, directed, push_views, records, woken, ActorState, RoomMessage,
};
use crate::text::{
    agent_name, agent_name_from_slug, blank, is_blank, opt_text, quoted, quoted_text, same_text, trim,
    trimmed,
};
use crate::wire::OutPayload;
use vstd::prelude::*;

verus! {

/// The circumstances of a request.
pub struct Asking<'a> {
    /// The connection that it came over.
    pub conn: u64,
    /// The pane that the process at its other end descends from.
    pub peer_pane: Option<u64>,
    /// Who is present in which pane.
    pub panes: &'a Vec<SlugPane>,
    /// The messages that have been recorded.
    pub store: &'a Vec<RoomMessage>,
    pub now_ms: u64,
    pub now: u64,
}

/// The actor in a pane; of several, the first.
pub open spec fn slug_in(panes: Seq<SlugPane>, pane: u64) -> Option<Seq<char>>
    decreases panes.len(),
{
    if panes.len() == 0 {
        None
    } else if panes[0].pane == pane {
        Some(panes[0].slug@)
    } else {
        slug_in(panes.drop_first(), pane)
    }
}

fn slug_for_pane<'a>(panes: &'a Vec<SlugPane>, pane: u64) -> (r: Option<&'a String>)
    ensures
        match r {
            Some(s) => slug_in(panes@, pane) == Some(s@),
            None => slug_in(panes@, pane) is None,
        },
{
    let mut i: usize = 0;
    assert(panes@.skip(0) =~= panes@);
    while i < panes.len()
        invariant
            i <= panes@.len(),
            slug_in(panes@, pane) == slug_in(panes@.skip(i as int), pane),
        decreases panes.len() - i,
    {
        if panes[i].pane == pane {
            return Some(&panes[i].slug);
        }
        assert(panes@.skip(i as int).drop_first() =~= panes@.skip(i + 1));
        i = i + 1;
    }
    None
}

/// The pane that a request says it comes from, or else the one that its process
/// descends from.
pub open spec fn pane_asked(p: Params, a: Asking) -> Option<u64> {
    if p.pane is Some {
        p.pane
    } else {
        a.peer_pane
    }
}

/// Why an `activity_emit` is refused.
pub open spec fn emit_refusal(p: Params) -> Option<Seq<char>> {
    if text_or(p.actor, Seq::empty()).len() == 0 {
        Some(
            "activity_emit: missing actor — only a hosted agent with a room slug can emit"@,
        )
    } else if text_or(p.kind, Seq::empty()) != "agent_message"@ {
        Some(
            "activity_emit: unsupported kind "@ + quoted_text(text_or(p.kind, Seq::empty()))
                + " (only agent_message)"@,
        )
    } else if blank(text_or(p.text, Seq::empty())) {
        Some("activity_emit: empty text"@)
    } else {
        None
    }
}

/// The base that a client joins under.
pub open spec fn join_base(p: Params) -> Seq<char> {
    match p.base {
        Some(s) => if blank(s@) {
            "agent"@
        } else {
            trimmed(s@)
        },
        None => "agent"@,
    }
}

impl Renderer {
    /// What `activity_emit` comes to.
    pub open spec fn emit_asked(p: Params, s: ProtoStep) -> bool {
        match emit_refusal(p) {
            Some(e) => refuses(s, e),
            None => s matches ProtoStep::Emit { message } && records(
                message,
                text_or(p.actor, Seq::empty()),
                opt_text(p.to),
                text_or(p.text, Seq::empty()),
            ),
        }
    }

    /// An agent's message, which is to be recorded and delivered. Only messages
    /// are accepted.
    pub fn proto_activity_emit(p: &Params) -> (s: ProtoStep)
        ensures
            Renderer::emit_asked(*p, s),
    {
        proof {
            reveal_strlit("");
        }
        let actor = text_of(&p.actor, "");
        assert(actor@ =~= text_or(p.actor, Seq::empty()));
        if actor.is_empty() {
            return ProtoStep::Reply(
                OutPayload::Error {
                    message:
                        "activity_emit: missing actor — only a hosted agent with a room slug can emit".to_owned(),
                },
            );
        }
        let kind = text_of(&p.kind, "");
        assert(kind@ =~= text_or(p.kind, Seq::empty()));
        if !same_text(kind, "agent_message") {
            let mut message = "activity_emit: unsupported kind ".to_owned();
            message.append(quoted(kind).as_str());
            message.append(" (only agent_message)");
            return ProtoStep::Reply(OutPayload::Error { message });
        }
        let text = text_of(&p.text, "");
        assert(text@ =~= text_or(p.text, Seq::empty()));
        if is_blank(text) {
            return ProtoStep::Reply(
                OutPayload::Error { message: "activity_emit: empty text".to_owned() },
            );
        }
        let to: Option<&str> = match &p.to {
            Some(t) => Some(t.as_str()),
            None => None,
        };
        ProtoStep::Emit { message: directed(actor, to, text) }
    }

    /// What `room_join` comes to.
    pub open spec fn join_asked(p: Params, a: Asking, s: ProtoStep) -> bool {
        s matches ProtoStep::Join { base, pane } && base@ == join_base(p) && pane == pane_asked(
            p,
            a,
        )
    }

    /// Join the room: the base and pane that the host binds a presence to.
    pub fn proto_room_join(p: &Params, a: &Asking) -> (s: ProtoStep)
        ensures
            Renderer::join_asked(*p, *a, s),
    {
        let base = match &p.base {
            Some(b) => {
                if is_blank(b.as_str()) {
                    "agent".to_owned()
                } else {
                    trim(b.as_str())
                }
            },
            None => "agent".to_owned(),
        };
        let pane = match p.pane {
            Some(n) => Some(n),
            None => a.peer_pane,
        };
        ProtoStep::Join { base, pane }
    }

    /// `self` is `before` after a `tool_emit`. The call is put down to whoever
    /// is present in its pane; nobody there, and it is ignored.
    pub open spec fn tool_asked(
        self,
        before: Renderer,
        p: Params,
        a: Asking,
        s: ProtoStep,
        e: Effects,
    ) -> bool {
        let slug = match pane_asked(p, a) {
            Some(n) => slug_in(a.panes@, n),
            None => None,
        };
        match slug {
            None => self == before && s == ProtoStep::Reply(OutPayload::Done) && e == nothing(),
            Some(who) => {
                &&& self == Renderer { room: self.room, ..before }
                &&& self.room.actor(who) == woken(before.room.actor(who), a.now)
                &&& forall|x: Seq<char>|
                    x != who ==> #[trigger] self.room.actor(x) == before.room.actor(x)
                &&& s matches ProtoStep::RecordTool { slug, agent_name: n, tool, title } && {
                    &&& slug@ == who
                    &&& n@ == agent_name(who)
                    &&& tool@ == text_or(p.tool, "tool"@)
                    &&& title@ == text_or(p.title, text_or(p.tool, "tool"@))
                }
                &&& e == draw()
            },
        }
    }

    /// A tool call that was reported from a pane.
    pub fn proto_tool_emit(&mut self, p: &Params, a: &Asking) -> (r: (ProtoStep, Effects))
        requires
            old(self).wf(),
        ensures
            final(self).wf(),
            final(self).tool_asked(*old(self), *p, *a, r.0, r.1),
    {
        let pane = match p.pane {
            Some(n) => Some(n),
            None => a.peer_pane,
        };
        let slug = match pane {
            Some(n) => slug_for_pane(a.panes, n),
            None => None,
        };
        match slug {
            None => (ProtoStep::Reply(OutPayload::Done), no_effects()),
            Some(who) => {
                let tool = text_of(&p.tool, "tool").to_owned();
                let title = text_of(&p.title, tool.as_str()).to_owned();
                self.room.wake(who.as_str(), a.now);
                (
                    ProtoStep::RecordTool {
                        slug: who.clone(),
                        agent_name: agent_name_from_slug(who.as_str()),
                        tool,
                        title,
                    },
                    redraw(),
                )
            },
        }
    }

    /// What `file_claim` comes to.
    pub open spec fn claim_asked(p: Params, s: ProtoStep) -> bool {
        let actor = text_or(p.actor, Seq::empty());
        let path = text_or(p.path, Seq::empty());
        if actor.len() == 0 || path.len() == 0 {
            refuses(s, "file_claim: needs a room actor and a path"@)
        } else {
            s matches ProtoStep::Claim { actor: x, path: y } && x@ == actor && y@ == path
        }
    }

    /// An actor declares that it is working in a file.
    pub fn proto_file_claim(p: &Params) -> (s: ProtoStep)
        ensures
            Renderer::claim_asked(*p, s),
    {
        proof {
            reveal_strlit("");
        }
        let actor = text_of(&p.actor, "");
        assert(actor@ =~= text_or(p.actor, Seq::empty()));
        let path = text_of(&p.path, "");
        assert(path@ =~= text_or(p.path, Seq::empty()));
        if actor.is_empty() || path.is_empty() {
            return ProtoStep::Reply(
                OutPayload::Error {
                    message: "file_claim: needs a room actor and a path".to_owned(),
                },
            );
        }
        ProtoStep::Claim { actor: actor.to_owned(), path: path.to_owned() }
    }

    /// An actor drops a claim.
    pub fn proto_file_release(p: &Params) -> (s: ProtoStep)
        ensures
            s matches ProtoStep::Release { actor, path } && actor@ == text_or(
                p.actor,
                Seq::empty(),
            ) && path@ == text_or(p.path, Seq::empty()),
    {
        proof {
            reveal_strlit("");
        }
        let actor = text_of(&p.actor, "");
        assert(actor@ =~= text_or(p.actor, Seq::empty()));
        let path = text_of(&p.path, "");
        assert(path@ =~= text_or(p.path, Seq::empty()));
        ProtoStep::Release { actor: actor.to_owned(), path: path.to_owned() }
    }

    /// `self` is `before` after a `room_subscribe`.
    pub open spec fn receiver_asked(
        self,
        before: Renderer,
        p: Params,
        a: Asking,
        s: ProtoStep,
    ) -> bool {
        let actor = text_or(p.actor, Seq::empty());
        if actor.len() == 0 {
            refuses(s, "room_subscribe: missing actor"@) && self == before
        } else {
            let x = ActorState { conn: Some(a.conn), ..before.room.actor(actor) };
            let on = before.config.comms_delivery;
            &&& self == Renderer { room: self.room, ..before }
            &&& forall|y: Seq<char>|
                y != actor ==> #[trigger] self.room.actor(y) == before.room.actor(y)
            &&& self.room.actor(actor) == caught_up(x, a.store@, on, a.now_ms)
            &&& s matches ProtoStep::CatchUp { pushes } && push_views(pushes@) == catch_up(
                x,
                actor,
                a.store@,
                on,
                a.now_ms,
            )
        }
    }

    /// Park a connection as the receiver of an actor's messages, and catch up.
    pub fn proto_room_subscribe(&mut self, p: &Params, a: &Asking) -> (s: ProtoStep)
        requires
            old(self).wf(),
        ensures
            final(self).wf(),
            final(self).receiver_asked(*old(self), *p, *a, s),
    {
        proof {
            reveal_strlit("");
        }
        let actor = text_of(&p.actor, "");
        assert(actor@ =~= text_or(p.actor, Seq::empty()));
        if actor.is_empty() {
            return ProtoStep::Reply(
                OutPayload::Error { message: "room_subscribe: missing actor".to_owned() },
            );
        }
        let on = self.config.comms_delivery;
        let pushes = self.room.room_subscribe(a.conn, actor, a.store, on, a.now_ms);
        ProtoStep::CatchUp { pushes }
    }

    /// A receiver has surfaced a message that was addressed to `actor`.
    pub fn acked(&mut self, actor: Option<&str>, id: u64) -> (r: OutPayload)
        requires
            old(self).wf(),
        ensures
            final(self).wf(),
            r is Done,
            match actor {
                None => *final(self) == *old(self),
                Some(x) => {
                    &&& *final(self) == (Renderer { room: final(self).room, ..*old(self) })
                    &&& final(self).room.actor(x@) == acknowledged(old(self).room.actor(x@), id)
                    &&& forall|s: Seq<char>|
                        s != x@ ==> #[trigger] final(self).room.actor(s) == old(self).room.actor(s)
                },
            },
    {
        if let Some(x) = actor {
            self.room.room_ack(x, id);
        }
        OutPayload::Done
    }
}

impl Renderer {
    /// `self` is `before` after a request, which comes to `s`.
    pub open spec fn answered(
        self,
        before: Renderer,
        method: Seq<char>,
        p: Params,
        a: Asking,
        s: ProtoStep,
        e: Effects,
    ) -> bool {
        match verb_named(method) {
            None => {
                &&& self == before && e == nothing()
                &&& refuses(s, "unknown method: "@ + method)
            },
            Some(Verb::Subscribe) => {
                &&& self == Renderer { proto_subscriber: Some(a.conn), ..before }
                &&& s == ProtoStep::Reply(OutPayload::Subscribed) && e == nothing()
            },
            Some(Verb::RoomSubscribe) => self.receiver_asked(before, p, a, s) && e == nothing(),
            Some(Verb::ToolEmit) => self.tool_asked(before, p, a, s, e),
            Some(Verb::SetTag) => self == before && before.tag_asked(p, true, s, e),
            Some(Verb::RemoveTag) => self == before && before.tag_asked(p, false, s, e),
            Some(Verb::CursorAt) => self == before && before.cursor_asked(p, s, e),
            Some(Verb::CursorClear) => self == before && before.cursor_cleared(p, s, e),
            Some(v) => self == before && e == nothing() && before.looked_up(v, p, a, s),
        }
    }

    /// What a request comes to that changes nothing in the window.
    pub open spec fn looked_up(self, v: Verb, p: Params, a: Asking, s: ProtoStep) -> bool {
        match v {
            Verb::ListTabs => self.tabs_listed(s),
            Verb::ListBlocks => self.blocks_asked(p, s),
            Verb::GetBlock => self.block_asked(p, s),
            Verb::ExportTab => self.export_asked(p, s),
            Verb::Stats => s is Stats,
            Verb::ListModules => self.modules_listed(s),
            Verb::ReloadModules => s is ReloadModules,
            Verb::ActivitiesList => s == (ProtoStep::Activities {
                actor: p.actor,
                to: p.to,
                kind: p.kind,
            }),
            Verb::ActivityEmit => Renderer::emit_asked(p, s),
            Verb::RoomJoin => Renderer::join_asked(p, a, s),
            Verb::RoomWho => s is RoomWho,
            Verb::FileClaim => Renderer::claim_asked(p, s),
            Verb::FileRelease => s matches ProtoStep::Release { actor, path } && actor@ == text_or(
                p.actor,
                Seq::empty(),
            ) && path@ == text_or(p.path, Seq::empty()),
            Verb::FileStatus => s matches ProtoStep::Status { path } && path@ == text_or(
                p.path,
                Seq::empty(),
            ),
            Verb::Files => s is Files,
            Verb::RoomAck => match p.message_id {
                Some(id) => s == (ProtoStep::Ack { message_id: id }),
                None => s == ProtoStep::Reply(OutPayload::Done),
            },
            _ => false,
        }
    }

    /// Handle one request.
    pub fn handle_proto_request(&mut self, method: &str, p: Params, a: &Asking) -> (r: (
        ProtoStep,
        Effects,
    ))
        requires
            old(self).wf(),
        ensures
            final(self).wf(),
            final(self).answered(*old(self), method@, p, *a, r.0, r.1),
    {
        let verb = match parse_verb(method) {
            Some(v) => v,
            None => {
                let mut message = "unknown method: ".to_owned();
                message.append(method);
                return (ProtoStep::Reply(OutPayload::Error { message }), no_effects());
            },
        };
        match verb {
            Verb::Subscribe => {
                self.proto_subscriber = Some(a.conn);
                (ProtoStep::Reply(OutPayload::Subscribed), no_effects())
            },
            Verb::ActivityEmit => (Renderer::proto_activity_emit(&p), no_effects()),
            Verb::RoomSubscribe => (self.proto_room_subscribe(&p, a), no_effects()),
            Verb::ToolEmit => self.proto_tool_emit(&p, a),
            Verb::SetTag => self.proto_set_tag(&p),
            Verb::RemoveTag => self.proto_remove_tag(&p),
            Verb::CursorAt => self.proto_cursor_at(&p),
            Verb::CursorClear => self.proto_cursor_clear(&p),
            Verb::ListTabs => (self.proto_list_tabs(), no_effects()),
            Verb::ListBlocks => (self.proto_list_blocks(&p), no_effects()),
            Verb::GetBlock => (self.proto_get_block(&p), no_effects()),
            Verb::ExportTab => (self.proto_export_tab(&p), no_effects()),
            Verb::Stats => (ProtoStep::Stats, no_effects()),
            Verb::ListModules => (self.proto_list_modules(), no_effects()),
            Verb::ReloadModules => (ProtoStep::ReloadModules, no_effects()),
            Verb::ActivitiesList => (
                ProtoStep::Activities { actor: p.actor, to: p.to, kind: p.kind },
                no_effects(),
            ),
            Verb::RoomJoin => (Renderer::proto_room_join(&p, a), no_effects()),
            Verb::RoomWho => (ProtoStep::RoomWho, no_effects()),
            Verb::FileClaim => (Renderer::proto_file_claim(&p), no_effects()),
            Verb::FileRelease => (Renderer::proto_file_release(&p), no_effects()),
            Verb::FileStatus => {
                proof {
                    reveal_strlit("");
                }
                let path = text_of(&p.path, "");
                assert(path@ =~= text_or(p.path, Seq::empty()));
                (ProtoStep::Status { path: path.to_owned() }, no_effects())
            },
            Verb::Files => (ProtoStep::Files, no_effects()),
            Verb::RoomAck => match p.message_id {
                Some(message_id) => (ProtoStep::Ack { message_id }, no_effects()),
                None => (ProtoStep::Reply(OutPayload::Done), no_effects()),
            },
        }
    }
}

} // verus!

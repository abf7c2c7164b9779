//! What a tab shows: switching it to another kind, and where keys and events
//! go once it has.

use crate::acp::AcpSession;
use crate::agent::{answer_to, heard, keyed, AcpEvent, AcpReply, AgentKey};
use crate::renderer::{draw, no_effects, nothing, redraw, Effects, Renderer};
use crate::tab::{
    find_module, module_with, ModuleKind, ModuleManifest, Tab, TabContentKind, TabId,
};
use crate::text::decoded;
use crate::tree::{PaneId, Scalar};
use vstd::prelude::*;
use vstd::utf8::{decode_utf8, valid_utf8};

verus! {

/// Beyond the end of any body: the next frame stops at the last line.
pub const SCROLL_END: u32 = 0x7f7f_ffff;

/// What has to be started for a tab of some kind.
#[derive(Copy, Clone, PartialEq, Eq, Structural, Debug)]
pub enum Launch {
    Nothing,
    /// A module that is spoken to in messages.
    Data,
    /// A module with a terminal of its own.
    Tty,
    /// A hosted agent.
    Agent,
}

/// What has to be started for a tab of that kind.
pub open spec fn launch(kind: TabContentKind, ms: Seq<ModuleManifest>) -> Launch {
    match kind {
        TabContentKind::Module(id) => match module_with(ms, id@) {
            Some(m) => if m.kind == ModuleKind::Data {
                Launch::Data
            } else {
                Launch::Tty
            },
            None => Launch::Nothing,
        },
        TabContentKind::Agent(_) => Launch::Agent,
        _ => Launch::Nothing,
    }
}

pub(crate) fn launch_of(kind: &TabContentKind, ms: &Vec<ModuleManifest>) -> (r: Launch)
    ensures
        r == launch(*kind, ms@),
{
    match kind {
        TabContentKind::Module(id) => match find_module(ms, id.as_str()) {
            Some(m) => match m.kind {
                ModuleKind::Data => Launch::Data,
                ModuleKind::Tty => Launch::Tty,
            },
            None => Launch::Nothing,
        },
        TabContentKind::Agent(_) => Launch::Agent,
        _ => Launch::Nothing,
    }
}

/// `u` is `t` switched to another kind: nothing is left of what it showed
/// before, and what was started for it is there.
pub open spec fn rekinded(t: Tab, u: Tab, kind: TabContentKind, l: Launch, started: bool) -> bool {
    &&& u == Tab {
        kind,
        module_session: u.module_session,
        module_pty: l is Tty,
        acp_session: u.acp_session,
        last_module_body: u.last_module_body,
        content_ready: false,
        buffer_dirty: true,
        module_cursor: None,
        module_gutter: None,
        gutter_ready: false,
        module_highlight_line: None,
        module_language: None,
        module_highlights: None,
        module_scroll_y: Scalar(0),
        pending_ensure_visible: None,
        image: None,
        animation: None,
        last_focused_path: None,
        ..t
    }
    &&& u.last_module_body@.len() == 0
    &&& if l is Data && started {
        u.module_session matches Some(body) && body@.len() == 0
    } else {
        u.module_session is None
    }
    &&& if l is Agent && started {
        u.acp_session matches Some(s) && fresh_session(s)
    } else {
        u.acp_session is None
    }
}

/// A session that nothing has been said in.
pub open spec fn fresh_session(s: AcpSession) -> bool {
    &&& s.turns@.len() == 0
    &&& s.session_id is None
    &&& s.pending_permission is None
    &&& !s.awaiting_response
    &&& s.draft@.len() == 0
}

fn rekind(tab: &mut Tab, kind: TabContentKind, l: Launch, started: bool)
    ensures
        rekinded(*old(tab), *final(tab), kind, l, started),
{
    tab.module_session = if l == Launch::Data && started {
        Some(String::new())
    } else {
        None
    };
    tab.module_pty = l == Launch::Tty;
    tab.acp_session = if l == Launch::Agent && started {
        Some(AcpSession::new())
    } else {
        None
    };
    tab.last_module_body = String::new();
    tab.kind = kind;
    tab.content_ready = false;
    tab.buffer_dirty = true;
    tab.module_cursor = None;
    tab.module_gutter = None;
    tab.gutter_ready = false;
    tab.module_highlight_line = None;
    tab.module_language = None;
    tab.module_highlights = None;
    tab.module_scroll_y = Scalar(0);
    tab.pending_ensure_visible = None;
    tab.image = None;
    tab.animation = None;
    tab.last_focused_path = None;
}

impl Renderer {
    /// What has to be started for a tab of that kind, before the tab is
    /// switched to it.
    pub fn launch_for(&self, kind: &TabContentKind) -> (r: Launch)
        ensures
            r == launch(*kind, self.modules@),
    {
        launch_of(kind, &self.modules)
    }

    /// Switch a pane's active tab to a different content kind. `started` says
    /// whether what had to be started for it came up.
    pub fn set_tab_kind(&mut self, pid: PaneId, kind: TabContentKind, started: bool) -> (e: Effects)
        requires
            old(self).wf(),
        ensures
            final(self).wf(),
            final(self).kind_set(*old(self), pid, kind, started, e),
    {
        let l = self.launch_for(&kind);
        let id = match self.ws.root_ref().find(pid) {
            Some(p) => {
                proof {
                    self.ws.lemma_pane_wf(pid);
                    crate::retab::lemma_pane_tab(
                        self.ws.tree(),
                        pid,
                        self.ws.tree().pane(pid).active_tab as int,
                    );
                    crate::retab::lemma_own_place(
                        self.ws.all(),
                        self.ws.tree().first_tab(pid) + self.ws.tree().pane(pid).active_tab,
                        self.ws.next_tab_id,
                    );
                }
                p.active_tab_ref().id
            },
            None => {
                return no_effects();
            },
        };
        if let Some(tab) = self.ws.tab_mut(id) {
            rekind(tab, kind, l, started);
        }
        Effects {
            reload_config: false,
            relayout: false,
            retitle: false,
            redraw: true,
            persist: true,
        }
    }

    /// `self` is `before` with the active tab of a pane switched to another
    /// kind.
    pub open spec fn kind_set(
        self,
        before: Renderer,
        pid: PaneId,
        kind: TabContentKind,
        started: bool,
        e: Effects,
    ) -> bool {
        if before.ws.tree().has(pid) {
            let t = before.ws.tree().pane(pid).shown();
            let u = self.ws.tree().tab(t.id);
            &&& rekinded(t, u, kind, launch(kind, before.modules@), started)
            &&& self.tab_changed(before, t.id, u)
            &&& e == (Effects { redraw: true, persist: true, ..nothing() })
        } else {
            self == before && e == nothing()
        }
    }
}

/// Where keys go.
pub enum Written {
    /// Nowhere.
    Nothing,
    /// To the tab's shell.
    Shell(Vec<u8>),
    /// To the terminal of its module.
    Module(Vec<u8>),
    /// To its data module, as a message.
    Session(Vec<u8>),
    /// To its agent.
    Agent(AgentKey),
}

/// The text of keys; none where they are not well-formed.
pub open spec fn key_text(bytes: Seq<u8>) -> Seq<char> {
    if valid_utf8(bytes) {
        decode_utf8(bytes)
    } else {
        Seq::empty()
    }
}

impl Renderer {
    /// `self` is `before` after keys have gone to where its active tab has
    /// them go.
    pub open spec fn wrote(self, before: Renderer, bytes: Vec<u8>, r: Written, e: Effects) -> bool {
        let t = before.ws.active_tab();
        if t.kind is Agent && t.acp_session is Some {
            self.agent_keyed(before, key_text(bytes@), r, e)
        } else {
            &&& self == before
            &&& e == nothing()
            &&& if t.kind is Module {
                if t.module_pty {
                    r == Written::Module(bytes)
                } else if t.module_session is Some {
                    r == Written::Session(bytes)
                } else {
                    r is Nothing
                }
            } else {
                r == Written::Shell(bytes)
            }
        }
    }

    /// `self` is `before` after a key has gone to the agent of its active tab.
    pub open spec fn agent_keyed(
        self,
        before: Renderer,
        key: Seq<char>,
        r: Written,
        e: Effects,
    ) -> bool {
        let t = before.ws.active_tab();
        let u = self.ws.active_tab();
        &&& r is Agent
        &&& u.acp_session is Some
        &&& keyed(t.acp_session->0, u.acp_session->0, key, r->Agent_0)
        &&& self.same_but_ws(before)
        &&& self.ws.active_tab_became(before.ws, u)
        &&& u == Tab {
            acp_session: u.acp_session,
            content_ready: t.content_ready && r->Agent_0 is Nothing,
            ..t
        }
        &&& e == (if r->Agent_0 is Nothing {
            nothing()
        } else {
            draw()
        })
    }

    /// Keys for the active tab. An agent's pane builds a draft from them; a
    /// module gets them as they are; everything else is the shell's.
    pub fn write_active(&mut self, bytes: Vec<u8>) -> (r: (Written, Effects))
        requires
            old(self).wf(),
        ensures
            final(self).wf(),
            final(self).wrote(*old(self), bytes, r.0, r.1),
    {
        let t = self.ws.active_tab_ref();
        match &t.kind {
            TabContentKind::Agent(_) => {
                if t.acp_session.is_some() {
                    return self.write_to_agent(&bytes);
                }
                (Written::Shell(bytes), no_effects())
            },
            TabContentKind::Module(_) => {
                if t.module_pty {
                    (Written::Module(bytes), no_effects())
                } else if t.module_session.is_some() {
                    (Written::Session(bytes), no_effects())
                } else {
                    (Written::Nothing, no_effects())
                }
            },
            _ => (Written::Shell(bytes), no_effects()),
        }
    }

    fn write_to_agent(&mut self, bytes: &Vec<u8>) -> (r: (Written, Effects))
        requires
            old(self).wf(),
            old(self).ws.active_tab().acp_session is Some,
        ensures
            final(self).wf(),
            final(self).agent_keyed(*old(self), key_text(bytes@), r.0, r.1),
    {
        let ghost w = self.ws;
        proof {
            w.lemma_pane_wf(w.active_pane);
        }
        let key = match decoded(bytes) {
            Some(s) => s,
            None => String::new(),
        };
        assert(key@ =~= key_text(bytes@));
        let tab = self.ws.active_tab_mut();
        let mut r = AgentKey::Nothing;
        if let Some(session) = &mut tab.acp_session {
            r = session.key(key.as_str());
        }
        let quiet = match &r {
            AgentKey::Nothing => true,
            _ => false,
        };
        if !quiet {
            tab.content_ready = false;
        }
        let ghost u = *tab;
        assert(self.ws.active_tab() == u);
        (
            Written::Agent(r),
            if quiet {
                no_effects()
            } else {
                redraw()
            },
        )
    }

    /// `self` is `before` after an event of the agent in tab `id`.
    pub open spec fn acp_heard(
        self,
        before: Renderer,
        id: TabId,
        event: AcpEvent,
        r: AcpReply,
        e: Effects,
    ) -> bool {
        if before.ws.tree().has_tab(id) && before.ws.tree().tab(id).acp_session is Some {
            let t = before.ws.tree().tab(id);
            let u = self.ws.tree().tab(id);
            &&& u == Tab {
                acp_session: u.acp_session,
                content_ready: false,
                module_scroll_y: if event is PermissionRequest {
                    // The prompt stands at the end; bring it on screen.
                    Scalar(SCROLL_END)
                } else {
                    t.module_scroll_y
                },
                ..t
            }
            &&& u.acp_session is Some
            &&& heard(t.acp_session->0, u.acp_session->0, event)
            &&& self.tab_changed(before, id, u)
            &&& r == answer_to(event)
            &&& e == draw()
        } else {
            self == before && r is Nothing && e == nothing()
        }
    }

    /// Route one event from a hosted agent into its tab's session.
    pub fn handle_acp_event(&mut self, id: TabId, event: AcpEvent) -> (r: (AcpReply, Effects))
        requires
            old(self).wf(),
        ensures
            final(self).wf(),
            final(self).acp_heard(*old(self), id, event, r.0, r.1),
    {
        let hosted = match self.ws.root_ref().find_tab(id) {
            Some(t) => t.acp_session.is_some(),
            None => false,
        };
        if !hosted {
            return (AcpReply::Nothing, no_effects());
        }
        let asks = match &event {
            AcpEvent::PermissionRequest { .. } => true,
            _ => false,
        };
        let mut r = AcpReply::Nothing;
        if let Some(tab) = self.ws.tab_mut(id) {
            if let Some(session) = &mut tab.acp_session {
                r = session.hear(event);
            }
            if asks {
                tab.module_scroll_y = Scalar(SCROLL_END);
            }
            tab.content_ready = false;
        }
        (r, redraw())
    }
}

/// What a graphics command asks for.
#[derive(Copy, Clone, PartialEq, Eq, Structural, Debug)]
pub enum GraphicsAction {
    Transmit,
    TransmitDisplay,
    Display,
    Delete,
    Query,
}

impl Renderer {
    /// What a picture sent by a program changes.
    pub open spec fn picture_taken(
        self,
        before: Renderer,
        id: TabId,
        action: GraphicsAction,
        image: Option<u64>,
        e: Effects,
    ) -> bool {
        if action == GraphicsAction::TransmitDisplay && image is Some {
            &&& e == draw()
            &&& if before.ws.tree().has_tab(id) {
                self.tab_changed(
                    before,
                    id,
                    Tab { image, ..before.ws.tree().tab(id) },
                )
            } else {
                self == before
            }
        } else {
            self == before && e == nothing()
        }
    }

    /// A terminal has sent a graphics command; `image` is the host's handle of
    /// what it carries, if that could be decoded. Only an image to be shown
    /// does anything; it replaces the one before it.
    pub fn handle_apc(&mut self, id: TabId, action: GraphicsAction, image: Option<u64>) -> (e:
        Effects)
        requires
            old(self).wf(),
        ensures
            final(self).wf(),
            final(self).picture_taken(*old(self), id, action, image, e),
    {
        if action != GraphicsAction::TransmitDisplay || image.is_none() {
            return no_effects();
        }
        if let Some(tab) = self.ws.tab_mut(id) {
            tab.image = image;
        }
        redraw()
    }
}

} // verus!

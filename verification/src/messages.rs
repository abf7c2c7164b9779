//! Messages from modules, and what they do to the tabs.

use crate::animation::{shown_for, Frame, TabAnimation};
use crate::renderer::{draw, no_effects, nothing, redraw, Effects, Renderer};
use crate::retab::{lemma_own_place, lemma_retabbed_refl, lemma_retabbed_trans};
use crate::room::{LATEST, MS};
use crate::tab::{Tab, TabId};
use crate::tab_tree::ids_of;
use crate::text::{opt_text, same_text, views};
use crate::tree::Scalar;
use vstd::prelude::*;
use vstd::utf8::encode_utf8;

verus! {

/// The largest body that a module may send; shaping a larger one would freeze
/// the window.
pub const MAX_MODULE_BODY_BYTES: usize = 16_777_216;

/// A body of text to show.
pub struct SetText {
    pub body: String,
    pub scroll_to_line: Option<u32>,
    pub cursor: Option<(u32, u32)>,
    pub gutter: Option<Vec<String>>,
    pub highlight_line: Option<u32>,
    pub language: Option<String>,
    /// The host's handle of the body's highlights in that language, if it has
    /// any.
    pub highlights: Option<u64>,
}

/// An image, decoded and uploaded by the host.
pub enum Decoded {
    Still(u64),
    Animated { frames: Vec<Frame>, total_ms: u64 },
}

/// One message from a running module.
pub enum ModuleMessage {
    SetText(SetText),
    /// An image to show; none where it could not be read or decoded.
    SetImage(Option<Decoded>),
    ConfigRequest,
    ConfigSet { name: String, value: serde_json::Value },
    Log(String),
    PublishFocus(String),
}

/// What the host has to do for a message.
pub enum ModuleAct {
    Nothing,
    /// Send the configuration to the module.
    SendConfig,
    /// Set a key of the configuration, then send it, whether that worked or
    /// not.
    SetConfig { name: String, value: serde_json::Value },
    /// Tell the modules of these tabs about the focused file.
    Focus { path: String, to: Vec<TabId> },
}

/// The characters of labels that may be missing.
pub open spec fn labels_view(o: Option<Vec<String>>) -> Option<Seq<Seq<char>>> {
    match o {
        Some(v) => Some(views(v@)),
        None => None,
    }
}

/// `m` has another body than `t` shows.
pub open spec fn new_body(t: Tab, m: SetText) -> bool {
    t.last_module_body@ != m.body@
}

/// `m` has another gutter than `t` shows.
pub open spec fn new_gutter(t: Tab, m: SetText) -> bool {
    labels_view(t.module_gutter) != labels_view(m.gutter)
}

/// `m` is in another language than `t` shows.
pub open spec fn new_language(t: Tab, m: SetText) -> bool {
    opt_text(t.module_language) != opt_text(m.language)
}

/// A tab that shows a new text. A new body drops the image; it starts at its
/// top where the module does not say where to scroll.
pub open spec fn with_text(t: Tab, m: SetText) -> Tab {
    let body = new_body(t, m);
    let gutter = new_gutter(t, m);
    let language = new_language(t, m);
    Tab {
        last_module_body: if body {
            m.body
        } else {
            t.last_module_body
        },
        module_session: if body && t.module_session is Some {
            Some(m.body)
        } else {
            t.module_session
        },
        content_ready: t.content_ready && !body && !language,
        image: if body {
            None
        } else {
            t.image
        },
        animation: if body {
            None
        } else {
            t.animation
        },
        module_scroll_y: if body && m.scroll_to_line is None {
            Scalar(0)
        } else {
            t.module_scroll_y
        },
        module_cursor: m.cursor,
        module_gutter: if gutter {
            m.gutter
        } else {
            t.module_gutter
        },
        gutter_ready: t.gutter_ready && !gutter,
        module_highlight_line: m.highlight_line,
        module_language: if language {
            m.language
        } else {
            t.module_language
        },
        module_highlights: if body || language {
            m.highlights
        } else {
            t.module_highlights
        },
        pending_ensure_visible: if m.scroll_to_line is Some {
            m.scroll_to_line
        } else {
            t.pending_ensure_visible
        },
        ..t
    }
}

/// A text changes what is on screen.
pub open spec fn text_shows(t: Tab, m: SetText) -> bool {
    ||| new_body(t, m)
    ||| t.module_cursor != m.cursor
    ||| new_gutter(t, m)
    ||| t.module_highlight_line != m.highlight_line
    ||| new_language(t, m)
    ||| m.scroll_to_line is Some
}

fn same_opt_text(a: &Option<String>, b: &Option<String>) -> (r: bool)
    ensures
        r == (opt_text(*a) == opt_text(*b)),
{
    match (a, b) {
        (Some(a), Some(b)) => same_text(a.as_str(), b.as_str()),
        (None, None) => true,
        _ => false,
    }
}

fn same_texts(a: &Vec<String>, b: &Vec<String>) -> (r: bool)
    ensures
        r == (views(a@) == views(b@)),
{
    if a.len() != b.len() {
        assert(views(a@).len() != views(b@).len());
        return false;
    }
    let mut i: usize = 0;
    while i < a.len()
        invariant
            i <= a@.len(),
            a@.len() == b@.len(),
            forall|j: int| 0 <= j < i ==> #[trigger] a@[j]@ == b@[j]@,
        decreases a.len() - i,
    {
        if !same_text(a[i].as_str(), b[i].as_str()) {
            assert(views(a@)[i as int] != views(b@)[i as int]);
            return false;
        }
        i = i + 1;
    }
    assert(views(a@) =~= views(b@));
    true
}

fn same_labels(a: &Option<Vec<String>>, b: &Option<Vec<String>>) -> (r: bool)
    ensures
        r == (labels_view(*a) == labels_view(*b)),
{
    match (a, b) {
        (Some(a), Some(b)) => same_texts(a, b),
        (None, None) => true,
        _ => false,
    }
}

impl Tab {
    /// Show a text. Returns whether that changes what is on screen.
    pub fn set_text(&mut self, m: SetText) -> (shows: bool)
        requires
            old(self).wf(),
        ensures
            final(self).wf(),
            *final(self) == with_text(*old(self), m),
            shows == text_shows(*old(self), m),
    {
        let body = !same_text(self.last_module_body.as_str(), m.body.as_str());
        let cursor = match (self.module_cursor, m.cursor) {
            (Some(a), Some(b)) => a.0 != b.0 || a.1 != b.1,
            (None, None) => false,
            _ => true,
        };
        let gutter = !same_labels(&self.module_gutter, &m.gutter);
        let highlight = self.module_highlight_line != m.highlight_line;
        let language = !same_opt_text(&self.module_language, &m.language);
        if body {
            if self.module_session.is_some() {
                self.module_session = Some(m.body.clone());
            }
            self.last_module_body = m.body;
            self.content_ready = false;
            self.image = None;
            self.animation = None;
            if m.scroll_to_line.is_none() {
                self.module_scroll_y = Scalar(0);
            }
        }
        self.module_cursor = m.cursor;
        if gutter {
            self.module_gutter = m.gutter;
            self.gutter_ready = false;
        }
        self.module_highlight_line = m.highlight_line;
        if language {
            self.module_language = m.language;
        }
        if body || language {
            self.module_highlights = m.highlights;
            self.content_ready = false;
        }
        if m.scroll_to_line.is_some() {
            self.pending_ensure_visible = m.scroll_to_line;
        }
        body || cursor || gutter || highlight || language || m.scroll_to_line.is_some()
    }
}

/// `u` is `t` with an image on it, in place of any text.
pub open spec fn with_image(t: Tab, u: Tab, image: Decoded, now: u64) -> bool {
    &&& u == Tab {
        image: match image {
            Decoded::Still(h) => Some(h),
            Decoded::Animated { .. } => None,
        },
        animation: u.animation,
        last_module_body: u.last_module_body,
        module_session: u.module_session,
        content_ready: false,
        module_scroll_y: Scalar(0),
        ..t
    }
    &&& match image {
        Decoded::Still(_) => u.animation is None,
        Decoded::Animated { frames, total_ms } => u.animation matches Some(a) && plays(
            a,
            frames@,
            total_ms,
            now,
        ),
    }
    &&& u.last_module_body@.len() == 0
    &&& match t.module_session {
        Some(_) => u.module_session matches Some(b) && b@.len() == 0,
        None => u.module_session is None,
    }
}

/// `a` plays these frames from `now` on.
pub open spec fn plays(a: TabAnimation, frames: Seq<Frame>, total_ms: u64, now: u64) -> bool {
    &&& a.wf()
    &&& a.frames@ == frames.map_values(|f: Frame| f.texture)
    &&& a.width == crate::animation::largest(frames.map_values(|f: Frame| f.width))
    &&& a.height == crate::animation::largest(frames.map_values(|f: Frame| f.height))
    &&& forall|i: int|
        0 <= i < frames.len() ==> #[trigger] a.cumulative@[i] == shown_for(frames.take(i + 1))
    &&& a.total_ms == total_ms
    &&& a.started_at == now
}

/// An animation is as long as its frames are shown, and no longer than can be
/// added to a moment.
pub open spec fn playable(image: Decoded) -> bool {
    image matches Decoded::Animated { frames, total_ms } ==> {
        &&& shown_for(frames@) == total_ms
        &&& total_ms <= LATEST / MS
    }
}

impl Tab {
    /// Show an image.
    pub fn set_image(&mut self, image: Decoded, now: u64)
        requires
            old(self).wf(),
            playable(image),
        ensures
            final(self).wf(),
            with_image(*old(self), *final(self), image, now),
    {
        match image {
            Decoded::Still(h) => {
                self.image = Some(h);
                self.animation = None;
            },
            Decoded::Animated { frames, total_ms } => {
                self.image = None;
                self.animation = Some(TabAnimation::of_frames(&frames, total_ms, now));
            },
        }
        self.last_module_body = String::new();
        if self.module_session.is_some() {
            self.module_session = Some(String::new());
        }
        self.content_ready = false;
        self.module_scroll_y = Scalar(0);
    }
}

/// A tab other than `from` with a data module.
pub open spec fn listens(t: Tab, from: TabId) -> bool {
    t.id != from && t.module_session is Some
}

/// The tabs other than `from` with data modules.
pub open spec fn listeners(tabs: Seq<Tab>, from: TabId) -> Seq<TabId>
    decreases tabs.len(),
{
    if tabs.len() == 0 {
        Seq::empty()
    } else if listens(tabs.last(), from) {
        listeners(tabs.drop_last(), from).push(tabs.last().id)
    } else {
        listeners(tabs.drop_last(), from)
    }
}

/// A tab after `from` has published a focused file.
pub open spec fn with_focus(t: Tab, from: TabId, path: String) -> Tab {
    if listens(t, from) {
        Tab { last_focused_path: Some(path), ..t }
    } else {
        t
    }
}

/// The tabs with data modules.
pub open spec fn sessions(tabs: Seq<Tab>) -> Seq<TabId>
    decreases tabs.len(),
{
    if tabs.len() == 0 {
        Seq::empty()
    } else if tabs.last().module_session is Some {
        sessions(tabs.drop_last()).push(tabs.last().id)
    } else {
        sessions(tabs.drop_last())
    }
}

impl Renderer {
    /// `self` is `before` after tab `from` has published a focused file.
    pub open spec fn focus_published(
        self,
        before: Renderer,
        from: TabId,
        path: String,
        to: Seq<TabId>,
    ) -> bool {
        &&& self.same_but_ws(before)
        &&& self.ws.retabbed(before.ws)
        &&& self.ws.all().len() == before.ws.all().len()
        &&& forall|i: int|
            0 <= i < before.ws.all().len() ==> #[trigger] self.ws.all()[i] == with_focus(
                before.ws.all()[i],
                from,
                path,
            )
        &&& to == listeners(before.ws.all(), from)
    }

    /// Tab `from` has published a focused file: every other data module is
    /// told, and its tab remembers the file.
    fn publish_focus(&mut self, from: TabId, path: &String) -> (to: Vec<TabId>)
        requires
            old(self).wf(),
        ensures
            final(self).wf(),
            final(self).focus_published(*old(self), from, *path, to@),
    {
        let ghost before = *self;
        let ghost w = self.ws;
        proof {
            lemma_retabbed_refl(w);
        }
        let ids = self.ws.tab_ids();
        let mut to: Vec<TabId> = Vec::new();
        let mut i: usize = 0;
        assert(w.all().take(0) =~= Seq::empty());
        while i < ids.len()
            invariant
                i <= ids@.len(),
                ids@ == ids_of(w.all()),
                w.wf(),
                self.wf(),
                self.same_but_ws(before),
                self.ws.retabbed(w),
                self.ws.all().len() == w.all().len(),
                forall|j: int|
                    0 <= j < i ==> #[trigger] self.ws.all()[j] == with_focus(
                        w.all()[j],
                        from,
                        *path,
                    ),
                forall|j: int|
                    i <= j < self.ws.all().len() ==> #[trigger] self.ws.all()[j] == w.all()[j],
                to@ == listeners(w.all().take(i as int), from),
            decreases ids.len() - i,
        {
            let ghost mid = self.ws;
            let id = ids[i];
            proof {
                lemma_own_place(mid.all(), i as int, mid.next_tab_id);
                assert(ids@[i as int] == w.all()[i as int].id);
                assert(mid.all()[i as int] == w.all()[i as int]);
                assert(w.all().take(i + 1).drop_last() =~= w.all().take(i as int));
            }
            if let Some(tab) = self.ws.tab_mut(id) {
                if id != from && tab.module_session.is_some() {
                    tab.last_focused_path = Some(path.clone());
                    to.push(id);
                }
            }
            proof {
                lemma_retabbed_trans(w, mid, self.ws);
            }
            i = i + 1;
        }
        assert(w.all().take(w.all().len() as int) =~= w.all());
        to
    }

    /// A shell pane reported a new working directory: the tabs whose modules
    /// are told.
    pub fn handle_cwd_changed(&self) -> (r: (Vec<TabId>, Effects))
        requires
            self.wf(),
        ensures
            r.0@ == sessions(self.ws.all()),
            r.1 == (Effects { persist: true, ..nothing() }),
    {
        let ghost all = self.ws.all();
        let mut tabs: Vec<&Tab> = Vec::new();
        let ghost n = tabs@.len();
        self.ws.root_ref().all_tabs(&mut tabs);
        assert forall|k: int| 0 <= k < all.len() implies *(#[trigger] tabs@[k]) == all[k] by {
            assert(*tabs@[n + k] == all[k]);
        }
        let mut to: Vec<TabId> = Vec::new();
        let mut i: usize = 0;
        while i < tabs.len()
            invariant
                i <= tabs@.len(),
                tabs@.len() == all.len(),
                forall|k: int| 0 <= k < all.len() ==> *(#[trigger] tabs@[k]) == all[k],
                to@ == sessions(all.take(i as int)),
            decreases tabs.len() - i,
        {
            assert(all.take(i + 1).drop_last() =~= all.take(i as int));
            if tabs[i].module_session.is_some() {
                to.push(tabs[i].id);
            }
            i = i + 1;
        }
        assert(all.take(all.len() as int) =~= all);
        (
            to,
            Effects {
                reload_config: false,
                relayout: false,
                retitle: false,
                redraw: false,
                persist: true,
            },
        )
    }

    /// A text is short enough to be shaped.
    pub open spec fn shapes(m: SetText) -> bool {
        encode_utf8(m.body@).len() <= MAX_MODULE_BODY_BYTES
    }

    /// `self` is `before` after a message from the module in tab `id`.
    pub open spec fn messaged(
        self,
        before: Renderer,
        id: TabId,
        msg: ModuleMessage,
        now: u64,
        act: ModuleAct,
        e: Effects,
    ) -> bool {
        let has = before.ws.tree().has_tab(id);
        let t = before.ws.tree().tab(id);
        let u = self.ws.tree().tab(id);
        match msg {
            ModuleMessage::SetText(m) => {
                &&& act is Nothing
                &&& if has && Renderer::shapes(m) {
                    &&& self.tab_changed(before, id, with_text(t, m))
                    &&& e == (if text_shows(t, m) {
                        draw()
                    } else {
                        nothing()
                    })
                } else {
                    self == before && e == nothing()
                }
            },
            ModuleMessage::SetImage(image) => {
                &&& act is Nothing
                &&& if has && image is Some {
                    &&& with_image(t, u, image->0, now)
                    &&& self.tab_changed(before, id, u)
                    &&& e == draw()
                } else {
                    self == before && e == nothing()
                }
            },
            ModuleMessage::ConfigRequest => {
                self == before && act is SendConfig && e == nothing()
            },
            ModuleMessage::ConfigSet { name, value } => {
                self == before && act == (ModuleAct::SetConfig { name, value }) && e == nothing()
            },
            ModuleMessage::Log(_) => self == before && act is Nothing && e == nothing(),
            ModuleMessage::PublishFocus(path) => {
                &&& act matches ModuleAct::Focus { path: p, to } && p == path
                    && self.focus_published(before, id, path, to@)
                &&& e == (Effects { persist: true, ..nothing() })
            },
        }
    }

    /// One message from a running module.
    pub fn handle_module_message(&mut self, id: TabId, msg: ModuleMessage, now: u64) -> (r: (
        ModuleAct,
        Effects,
    ))
        requires
            old(self).wf(),
            msg matches ModuleMessage::SetImage(Some(image)) ==> playable(image),
        ensures
            final(self).wf(),
            final(self).messaged(*old(self), id, msg, now, r.0, r.1),
    {
        match msg {
            ModuleMessage::SetText(m) => {
                let mut shows = false;
                if m.body.as_str().as_bytes().len() <= MAX_MODULE_BODY_BYTES {
                    if let Some(tab) = self.ws.tab_mut(id) {
                        shows = tab.set_text(m);
                    }
                }
                (
                    ModuleAct::Nothing,
                    if shows {
                        redraw()
                    } else {
                        no_effects()
                    },
                )
            },
            ModuleMessage::SetImage(image) => {
                let mut shows = false;
                if let Some(image) = image {
                    if let Some(tab) = self.ws.tab_mut(id) {
                        tab.set_image(image, now);
                        shows = true;
                    }
                }
                (
                    ModuleAct::Nothing,
                    if shows {
                        redraw()
                    } else {
                        no_effects()
                    },
                )
            },
            ModuleMessage::ConfigRequest => (ModuleAct::SendConfig, no_effects()),
            ModuleMessage::ConfigSet { name, value } => (
                ModuleAct::SetConfig { name, value },
                no_effects(),
            ),
            ModuleMessage::Log(_) => (ModuleAct::Nothing, no_effects()),
            ModuleMessage::PublishFocus(path) => {
                let to = self.publish_focus(id, &path);
                (
                    ModuleAct::Focus { path, to },
                    Effects {
                        reload_config: false,
                        relayout: false,
                        retitle: false,
                        redraw: false,
                        persist: true,
                    },
                )
            },
        }
    }
}

} // verus!

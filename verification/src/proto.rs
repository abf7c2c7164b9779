//! Requests of clients: which verb is which, what is refused, and what the
//! window does for each.

use crate::json::Params;
use crate::renderer::{draw, no_effects, nothing, redraw, Effects, Renderer};
use crate::room::{Push, Recorded};
use crate::tab::{ModuleManifest, Tab, TabId};
use crate::text::{agent_name, digits, push_number, same_text};
use crate::tree::PaneNode;
use crate::wire::{OutPayload, TabInfo};
use vstd::prelude::*;

verus! {

/// What a client can ask for.
#[derive(Copy, Clone, PartialEq, Eq, Structural, Debug)]
pub enum Verb {
    ListTabs,
    ListBlocks,
    GetBlock,
    Subscribe,
    SetTag,
    RemoveTag,
    CursorAt,
    CursorClear,
    ExportTab,
    Stats,
    ListModules,
    ReloadModules,
    ActivitiesList,
    ActivityEmit,
    RoomJoin,
    RoomWho,
    ToolEmit,
    FileClaim,
    FileRelease,
    FileStatus,
    Files,
    RoomSubscribe,
    RoomAck,
}

/// The verb of that name.
pub open spec fn verb_named(s: Seq<char>) -> Option<Verb> {
    if s == "list_tabs"@ {
        Some(Verb::ListTabs)
    } else if s == "list_blocks"@ {
        Some(Verb::ListBlocks)
    } else if s == "get_block"@ {
        Some(Verb::GetBlock)
    } else if s == "subscribe"@ {
        Some(Verb::Subscribe)
    } else if s == "set_tag"@ {
        Some(Verb::SetTag)
    } else if s == "remove_tag"@ {
        Some(Verb::RemoveTag)
    } else if s == "cursor_at"@ {
        Some(Verb::CursorAt)
    } else if s == "cursor_clear"@ {
        Some(Verb::CursorClear)
    } else if s == "export_tab"@ {
        Some(Verb::ExportTab)
    } else if s == "stats"@ {
        Some(Verb::Stats)
    } else if s == "list_modules"@ {
        Some(Verb::ListModules)
    } else if s == "reload_modules"@ {
        Some(Verb::ReloadModules)
    } else if s == "activities_list"@ {
        Some(Verb::ActivitiesList)
    } else if s == "activity_emit"@ {
        Some(Verb::ActivityEmit)
    } else if s == "room_join"@ {
        Some(Verb::RoomJoin)
    } else if s == "room_who"@ {
        Some(Verb::RoomWho)
    } else if s == "tool_emit"@ {
        Some(Verb::ToolEmit)
    } else if s == "file_claim"@ {
        Some(Verb::FileClaim)
    } else if s == "file_release"@ {
        Some(Verb::FileRelease)
    } else if s == "file_status"@ {
        Some(Verb::FileStatus)
    } else if s == "files"@ {
        Some(Verb::Files)
    } else if s == "room_subscribe"@ {
        Some(Verb::RoomSubscribe)
    } else if s == "room_ack"@ {
        Some(Verb::RoomAck)
    } else {
        None
    }
}

/// The verb of that name.
pub fn parse_verb(s: &str) -> (r: Option<Verb>)
    ensures
        r == verb_named(s@),
{
    if same_text(s, "list_tabs") {
        Some(Verb::ListTabs)
    } else if same_text(s, "list_blocks") {
        Some(Verb::ListBlocks)
    } else if same_text(s, "get_block") {
        Some(Verb::GetBlock)
    } else if same_text(s, "subscribe") {
        Some(Verb::Subscribe)
    } else if same_text(s, "set_tag") {
        Some(Verb::SetTag)
    } else if same_text(s, "remove_tag") {
        Some(Verb::RemoveTag)
    } else if same_text(s, "cursor_at") {
        Some(Verb::CursorAt)
    } else if same_text(s, "cursor_clear") {
        Some(Verb::CursorClear)
    } else if same_text(s, "export_tab") {
        Some(Verb::ExportTab)
    } else if same_text(s, "stats") {
        Some(Verb::Stats)
    } else if same_text(s, "list_modules") {
        Some(Verb::ListModules)
    } else if same_text(s, "reload_modules") {
        Some(Verb::ReloadModules)
    } else if same_text(s, "activities_list") {
        Some(Verb::ActivitiesList)
    } else if same_text(s, "activity_emit") {
        Some(Verb::ActivityEmit)
    } else if same_text(s, "room_join") {
        Some(Verb::RoomJoin)
    } else if same_text(s, "room_who") {
        Some(Verb::RoomWho)
    } else if same_text(s, "tool_emit") {
        Some(Verb::ToolEmit)
    } else if same_text(s, "file_claim") {
        Some(Verb::FileClaim)
    } else if same_text(s, "file_release") {
        Some(Verb::FileRelease)
    } else if same_text(s, "file_status") {
        Some(Verb::FileStatus)
    } else if same_text(s, "files") {
        Some(Verb::Files)
    } else if same_text(s, "room_subscribe") {
        Some(Verb::RoomSubscribe)
    } else if same_text(s, "room_ack") {
        Some(Verb::RoomAck)
    } else {
        None
    }
}

/// What a request comes to: an answer, or something that only the host can
/// look up or do, with what it has to be done with.
#[allow(inconsistent_fields)]
pub enum ProtoStep {
    Reply(OutPayload),
    Blocks { tab_id: u64 },
    Block { tab_id: u64, block_id: u32 },
    SetTag { tab_id: u64, block_id: u32, tag: String },
    RemoveTag { tab_id: u64, block_id: u32, tag: String },
    CursorAt { tab_id: u64, block_id: u32 },
    CursorClear { tab_id: u64 },
    Export { tab_id: u64, since: Option<u32> },
    Stats,
    /// Look for modules again, then answer with what there is.
    ReloadModules,
    /// Record a message, have it delivered under the id that it got, then
    /// answer `Done`.
    Emit { message: Recorded },
    /// Hand these to their receiver in turn, then answer `Subscribed`.
    CatchUp { pushes: Vec<Push> },
    Activities { actor: Option<String>, to: Option<String>, kind: Option<String> },
    Join { base: String, pane: Option<u64> },
    RoomWho,
    RecordTool { slug: String, agent_name: String, tool: String, title: String },
    Claim { actor: String, path: String },
    Release { actor: String, path: String },
    Status { path: String },
    Files,
    /// A receiver has surfaced this message.
    Ack { message_id: u64 },
}

/// `s` answers with this error.
pub open spec fn refuses(s: ProtoStep, message: Seq<char>) -> bool {
    s matches ProtoStep::Reply(OutPayload::Error { message: m }) && m@ == message
}

fn refuse(message: String) -> (s: ProtoStep)
    ensures
        refuses(s, message@),
{
    ProtoStep::Reply(OutPayload::Error { message })
}

/// The text in `o`, or another one where there is none.
pub open spec fn text_or(o: Option<String>, other: Seq<char>) -> Seq<char> {
    match o {
        Some(s) => s@,
        None => other,
    }
}

pub(crate) fn text_of<'a>(o: &'a Option<String>, other: &'a str) -> (r: &'a str)
    ensures
        r@ == text_or(*o, other@),
{
    match o {
        Some(s) => s.as_str(),
        None => other,
    }
}

/// A number cut down to the size of a block's id.
pub open spec fn block_number(n: u64) -> u32 {
    (n % 0x1_0000_0000u64) as u32
}

fn to_block_number(n: u64) -> (r: u32)
    ensures
        r == block_number(n),
{
    (n % 0x1_0000_0000) as u32
}

/// Why a request about a tab is refused.
pub open spec fn tab_refusal(t: PaneNode, tab_id: Option<u64>) -> Option<Seq<char>> {
    match tab_id {
        None => Some("missing or invalid tab_id"@),
        Some(n) => if t.has_tab(TabId(n)) {
            None
        } else {
            Some("no tab with id "@ + digits(n as nat))
        },
    }
}

/// Why a request about a tag is refused before its tab is looked at.
pub open spec fn tag_refusal(p: Params) -> Option<Seq<char>> {
    if p.block_id is None {
        Some("missing or invalid block_id"@)
    } else if p.tag is None {
        Some("missing or invalid tag"@)
    } else {
        None
    }
}

impl Renderer {
    /// The tab that a request is about, or why it is refused.
    fn asked_tab(&self, tab_id: Option<u64>) -> (r: Result<u64, String>)
        requires
            self.wf(),
        ensures
            match r {
                Ok(n) => tab_id == Some(n) && tab_refusal(self.ws.tree(), tab_id) is None,
                Err(e) => tab_refusal(self.ws.tree(), tab_id) == Some(e@),
            },
    {
        match tab_id {
            None => Err("missing or invalid tab_id".to_owned()),
            Some(n) => {
                if self.ws.root_ref().holds_tab(TabId(n)) {
                    Ok(n)
                } else {
                    let mut e = "no tab with id ".to_owned();
                    push_number(&mut e, n);
                    Err(e)
                }
            },
        }
    }

    /// What `list_tabs` comes to.
    pub open spec fn tabs_listed(self, s: ProtoStep) -> bool {
        s matches ProtoStep::Reply(OutPayload::Tabs { tabs }) && {
            &&& tabs@.len() == self.ws.all().len()
            &&& forall|i: int|
                0 <= i < tabs@.len() ==> (#[trigger] tabs@[i]).tab_id == self.ws.all()[i].id.0
                    && tabs@[i].title == self.ws.all()[i].title
        }
    }

    /// Every tab, with its title.
    pub fn proto_list_tabs(&self) -> (s: ProtoStep)
        requires
            self.wf(),
        ensures
            self.tabs_listed(s),
    {
        let ghost all = self.ws.all();
        let mut tabs: Vec<&Tab> = Vec::new();
        let ghost n = tabs@.len();
        self.ws.root_ref().all_tabs(&mut tabs);
        assert forall|k: int| 0 <= k < all.len() implies *(#[trigger] tabs@[k]) == all[k] by {
            assert(*tabs@[n + k] == all[k]);
        }
        let mut out: Vec<TabInfo> = Vec::new();
        let mut i: usize = 0;
        while i < tabs.len()
            invariant
                i <= tabs@.len(),
                tabs@.len() == all.len(),
                forall|k: int| 0 <= k < all.len() ==> *(#[trigger] tabs@[k]) == all[k],
                out@.len() == i,
                forall|k: int|
                    0 <= k < i ==> (#[trigger] out@[k]).tab_id == all[k].id.0 && out@[k].title
                        == all[k].title,
            decreases tabs.len() - i,
        {
            out.push(TabInfo { tab_id: tabs[i].id.0, title: tabs[i].title.clone() });
            i = i + 1;
        }
        ProtoStep::Reply(OutPayload::Tabs { tabs: out })
    }

    /// What `list_blocks` comes to.
    pub open spec fn blocks_asked(self, p: Params, s: ProtoStep) -> bool {
        match tab_refusal(self.ws.tree(), p.tab_id) {
            Some(e) => refuses(s, e),
            None => s == (ProtoStep::Blocks { tab_id: p.tab_id->0 }),
        }
    }

    /// The blocks of a tab.
    pub fn proto_list_blocks(&self, p: &Params) -> (s: ProtoStep)
        requires
            self.wf(),
        ensures
            self.blocks_asked(*p, s),
    {
        match self.asked_tab(p.tab_id) {
            Ok(tab_id) => ProtoStep::Blocks { tab_id },
            Err(e) => refuse(e),
        }
    }

    /// What `get_block` comes to.
    pub open spec fn block_asked(self, p: Params, s: ProtoStep) -> bool {
        if p.tab_id is None {
            refuses(s, "missing or invalid tab_id"@)
        } else if p.block_id is None {
            refuses(s, "missing or invalid block_id"@)
        } else {
            match tab_refusal(self.ws.tree(), p.tab_id) {
                Some(e) => refuses(s, e),
                None => s == (ProtoStep::Block {
                    tab_id: p.tab_id->0,
                    block_id: block_number(p.block_id->0),
                }),
            }
        }
    }

    /// One block of a tab.
    pub fn proto_get_block(&self, p: &Params) -> (s: ProtoStep)
        requires
            self.wf(),
        ensures
            self.block_asked(*p, s),
    {
        if p.tab_id.is_none() {
            return refuse("missing or invalid tab_id".to_owned());
        }
        let block = match p.block_id {
            Some(n) => n,
            None => {
                return refuse("missing or invalid block_id".to_owned());
            },
        };
        match self.asked_tab(p.tab_id) {
            Ok(tab_id) => ProtoStep::Block { tab_id, block_id: to_block_number(block) },
            Err(e) => refuse(e),
        }
    }

    /// What `set_tag` and `remove_tag` come to.
    pub open spec fn tag_asked(self, p: Params, set: bool, s: ProtoStep, e: Effects) -> bool {
        match tag_refusal(p) {
            Some(m) => refuses(s, m) && e == nothing(),
            None => {
                &&& e == draw()
                &&& match tab_refusal(self.ws.tree(), p.tab_id) {
                    Some(m) => refuses(s, m),
                    None => if set {
                        s == (ProtoStep::SetTag {
                            tab_id: p.tab_id->0,
                            block_id: block_number(p.block_id->0),
                            tag: p.tag->0,
                        })
                    } else {
                        s == (ProtoStep::RemoveTag {
                            tab_id: p.tab_id->0,
                            block_id: block_number(p.block_id->0),
                            tag: p.tag->0,
                        })
                    },
                }
            },
        }
    }

    fn proto_tag(&self, p: &Params, set: bool) -> (r: (ProtoStep, Effects))
        requires
            self.wf(),
        ensures
            self.tag_asked(*p, set, r.0, r.1),
    {
        let block_id = match p.block_id {
            Some(n) => to_block_number(n),
            None => {
                return (refuse("missing or invalid block_id".to_owned()), no_effects());
            },
        };
        let tag = match &p.tag {
            Some(t) => t.clone(),
            None => {
                return (refuse("missing or invalid tag".to_owned()), no_effects());
            },
        };
        match self.asked_tab(p.tab_id) {
            Ok(tab_id) => if set {
                (ProtoStep::SetTag { tab_id, block_id, tag }, redraw())
            } else {
                (ProtoStep::RemoveTag { tab_id, block_id, tag }, redraw())
            },
            Err(e) => (refuse(e), redraw()),
        }
    }

    /// A tag for a block.
    pub fn proto_set_tag(&self, p: &Params) -> (r: (ProtoStep, Effects))
        requires
            self.wf(),
        ensures
            self.tag_asked(*p, true, r.0, r.1),
    {
        self.proto_tag(p, true)
    }

    /// A tag off a block.
    pub fn proto_remove_tag(&self, p: &Params) -> (r: (ProtoStep, Effects))
        requires
            self.wf(),
        ensures
            self.tag_asked(*p, false, r.0, r.1),
    {
        self.proto_tag(p, false)
    }

    /// What `cursor_at` comes to.
    pub open spec fn cursor_asked(self, p: Params, s: ProtoStep, e: Effects) -> bool {
        if p.block_id is None {
            refuses(s, "missing or invalid block_id"@) && e == nothing()
        } else {
            &&& e == draw()
            &&& match tab_refusal(self.ws.tree(), p.tab_id) {
                Some(m) => refuses(s, m),
                None => s == (ProtoStep::CursorAt {
                    tab_id: p.tab_id->0,
                    block_id: block_number(p.block_id->0),
                }),
            }
        }
    }

    /// The cursor onto a block.
    pub fn proto_cursor_at(&self, p: &Params) -> (r: (ProtoStep, Effects))
        requires
            self.wf(),
        ensures
            self.cursor_asked(*p, r.0, r.1),
    {
        let block_id = match p.block_id {
            Some(n) => to_block_number(n),
            None => {
                return (refuse("missing or invalid block_id".to_owned()), no_effects());
            },
        };
        match self.asked_tab(p.tab_id) {
            Ok(tab_id) => (ProtoStep::CursorAt { tab_id, block_id }, redraw()),
            Err(e) => (refuse(e), redraw()),
        }
    }

    /// What `cursor_clear` comes to.
    pub open spec fn cursor_cleared(self, p: Params, s: ProtoStep, e: Effects) -> bool {
        &&& e == draw()
        &&& match tab_refusal(self.ws.tree(), p.tab_id) {
            Some(m) => refuses(s, m),
            None => s == (ProtoStep::CursorClear { tab_id: p.tab_id->0 }),
        }
    }

    /// No cursor on any block of a tab.
    pub fn proto_cursor_clear(&self, p: &Params) -> (r: (ProtoStep, Effects))
        requires
            self.wf(),
        ensures
            self.cursor_cleared(*p, r.0, r.1),
    {
        match self.asked_tab(p.tab_id) {
            Ok(tab_id) => (ProtoStep::CursorClear { tab_id }, redraw()),
            Err(e) => (refuse(e), redraw()),
        }
    }

    /// What `export_tab` comes to.
    pub open spec fn export_asked(self, p: Params, s: ProtoStep) -> bool {
        match tab_refusal(self.ws.tree(), p.tab_id) {
            Some(e) => refuses(s, e),
            None => s == (ProtoStep::Export {
                tab_id: p.tab_id->0,
                since: match p.since {
                    Some(n) => Some(block_number(n)),
                    None => None,
                },
            }),
        }
    }

    /// The blocks of a tab with their texts, from some block on.
    pub fn proto_export_tab(&self, p: &Params) -> (s: ProtoStep)
        requires
            self.wf(),
        ensures
            self.export_asked(*p, s),
    {
        let since = match p.since {
            Some(n) => Some(to_block_number(n)),
            None => None,
        };
        match self.asked_tab(p.tab_id) {
            Ok(tab_id) => ProtoStep::Export { tab_id, since },
            Err(e) => refuse(e),
        }
    }

    /// What `list_modules` comes to.
    pub open spec fn modules_listed(self, s: ProtoStep) -> bool {
        s matches ProtoStep::Reply(OutPayload::Modules { modules }) && modules@ == self.modules@
    }

    /// The registered modules.
    pub fn proto_list_modules(&self) -> (s: ProtoStep)
        ensures
            self.modules_listed(s),
    {
        let mut out: Vec<ModuleManifest> = Vec::new();
        let mut i: usize = 0;
        while i < self.modules.len()
            invariant
                i <= self.modules@.len(),
                out@ == self.modules@.take(i as int),
            decreases self.modules.len() - i,
        {
            out.push(self.modules[i].copy());
            i = i + 1;
            assert(out@ =~= self.modules@.take(i as int));
        }
        assert(self.modules@.take(self.modules@.len() as int) =~= self.modules@);
        ProtoStep::Reply(OutPayload::Modules { modules: out })
    }
}

} // verus!

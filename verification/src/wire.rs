//! What is told to clients: the shapes that requests are answered in.

use crate::blocks::BlockInfo;
use crate::tab::ModuleManifest;
use crate::text::{lower, lowercase};
use vstd::prelude::*;

verus! {

/// What an activity of the room was.
pub enum ActivityKind {
    AgentMessage { to: Option<String>, text: String },
    ToolCall { tool: String },
}

/// An entry of the room's activity stream.
pub struct Activity {
    pub id: u64,
    pub actor: String,
    pub agent_name: String,
    pub kind: ActivityKind,
    /// The name of the kind, as filters and clients spell it.
    pub kind_name: String,
    /// The name of the status.
    pub status: String,
    pub title: String,
}

/// An activity as it is told to a client.
pub struct ActivityInfo {
    pub id: u64,
    pub actor: String,
    pub agent_name: String,
    pub kind: String,
    pub status: String,
    pub title: String,
    pub to: Option<String>,
    pub text: Option<String>,
}

/// `info` tells what `a` is.
pub open spec fn activity_told(info: ActivityInfo, a: Activity) -> bool {
    &&& info.id == a.id
    &&& info.actor == a.actor
    &&& info.agent_name == a.agent_name
    &&& info.kind == a.kind_name
    &&& info.status@ == lowercase(a.status@)
    &&& info.title == a.title
    &&& match a.kind {
        ActivityKind::AgentMessage { to, text } => info.to == to && info.text == Some(text),
        ActivityKind::ToolCall { .. } => info.to is None && info.text is None,
    }
}

/// Project an activity onto its wire shape: the status in lower case, and the
/// addressee and text of a message.
pub fn activity_to_info(a: &Activity) -> (info: ActivityInfo)
    ensures
        activity_told(info, *a),
{
    let (to, text): (Option<String>, Option<String>) = match &a.kind {
        ActivityKind::AgentMessage { to, text } => {
            let t: Option<String> = match to {
                Some(s) => Some(s.clone()),
                None => None,
            };
            (t, Some(text.clone()))
        },
        ActivityKind::ToolCall { .. } => (None, None),
    };
    ActivityInfo {
        id: a.id,
        actor: a.actor.clone(),
        agent_name: a.agent_name.clone(),
        kind: a.kind_name.clone(),
        status: lower(a.status.as_str()),
        title: a.title.clone(),
        to,
        text,
    }
}

/// Somebody who is present in the room.
pub struct Presence {
    pub slug: String,
    pub base: String,
    pub color_name: String,
    pub rgb: (u8, u8, u8),
    pub pane: Option<u64>,
}

/// A presence as it is told to a client.
pub struct ActorInfo {
    pub slug: String,
    pub base: String,
    pub color: String,
    pub rgb: [u8; 3],
    pub pane: Option<u64>,
}

/// `info` tells who `p` is.
pub open spec fn presence_told(info: ActorInfo, p: Presence) -> bool {
    &&& info.slug == p.slug
    &&& info.base == p.base
    &&& info.color == p.color_name
    &&& info.rgb@ == seq![p.rgb.0, p.rgb.1, p.rgb.2]
    &&& info.pane == p.pane
}

/// Project a presence onto its wire shape.
pub fn presence_to_info(p: &Presence) -> (info: ActorInfo)
    ensures
        presence_told(info, *p),
{
    ActorInfo {
        slug: p.slug.clone(),
        base: p.base.clone(),
        color: p.color_name.clone(),
        rgb: [p.rgb.0, p.rgb.1, p.rgb.2],
        pane: p.pane,
    }
}

pub struct TabInfo {
    pub tab_id: u64,
    pub title: String,
}

/// A block with the texts of its command and output.
pub struct BlockData {
    pub info: BlockInfo,
    pub command: String,
    pub output: String,
}

/// A file that somebody is working in.
pub struct FileClaimInfo {
    pub path: String,
    pub actor: String,
    pub seconds_ago: u64,
}

/// Something that a subscriber is told without having asked.
#[derive(Copy, Clone, PartialEq, Eq, Structural, Debug)]
pub enum EventPayload {
    BlockOpened { tab_id: u64, block_id: u32 },
    BlockClosed { tab_id: u64, block_id: u32, exit_code: Option<i32> },
}

/// What is counted of one tab.
pub struct TabStats {
    pub tab_id: u64,
    pub title: String,
    pub cols: usize,
    pub rows: usize,
    pub blocks: usize,
    pub open_block: Option<u32>,
    pub cursor_block: Option<u32>,
    pub has_image: bool,
}

/// What a request is answered.
#[allow(inconsistent_fields)]
pub enum OutPayload {
    Done,
    Subscribed,
    Error { message: String },
    Tabs { tabs: Vec<TabInfo> },
    Blocks { blocks: Vec<BlockInfo>, cursor: Option<u32> },
    Block { block: BlockData },
    Export { tab_id: u64, blocks: Vec<BlockData> },
    Activities { activities: Vec<ActivityInfo> },
    Joined { actor: ActorInfo },
    RoomWho { actors: Vec<ActorInfo> },
    FileClaim { path: String, conflict: Option<String> },
    FileStatus { path: String, held_by: Option<String>, held_seconds_ago: Option<u64> },
    Files { claims: Vec<FileClaimInfo> },
    Modules { modules: Vec<ModuleManifest> },
}

} // verus!

//! Answers to requests, once the host has looked up what they take; and what
//! clients are told without having asked.

use crate::blocks::{
    block_command_text, block_output_text, block_to_info, can_extract, tells, Block, BlockInfo,
};
use crate::files::joined_queue;
use crate::renderer::{draw, redraw, no_effects, nothing, Effects, Renderer};
use crate::room::disconnected;
use crate::selection::Cell;
use crate::tab::{Tab, TabId};
use crate::text::{digits, push_number, quoted, quoted_text};
use crate::wire::{
    activity_to_info, activity_told, presence_to_info, presence_told, Activity, ActivityInfo,
    ActorInfo, BlockData, EventPayload, FileClaimInfo, OutPayload, Presence, TabStats,
};
use vstd::prelude::*;

verus! {

/// The terminal that blocks are read from.
pub struct Source {
    /// How many lines have scrolled out of it.
    pub history: i32,
    pub cols: usize,
}

/// `s` is the text of a block's command; empty where there is none to read.
pub open spec fn command_read<F: Fn(Cell, Cell) -> String>(
    b: Block,
    at: Source,
    extract: F,
    s: Seq<char>,
) -> bool {
    match b.command_rows(at.history, at.cols) {
        Some(rows) => exists|t: String|
            #[trigger] call_ensures(extract, (rows.0, rows.1), t) && t@ == s,
        None => s.len() == 0,
    }
}

/// `s` is the text of a block's output; empty where there is none to read.
pub open spec fn output_read<F: Fn(Cell, Cell) -> String>(
    b: Block,
    at: Source,
    extract: F,
    s: Seq<char>,
) -> bool {
    match b.output_rows(at.history, at.cols) {
        Some(rows) => exists|t: String|
            #[trigger] call_ensures(extract, (rows.0, rows.1), t) && t@ == s,
        None => s.len() == 0,
    }
}

/// `d` is a block with its texts.
pub open spec fn block_read<F: Fn(Cell, Cell) -> String>(
    b: Block,
    at: Source,
    extract: F,
    d: BlockData,
) -> bool {
    &&& tells(d.info, b)
    &&& command_read(b, at, extract, d.command@)
    &&& output_read(b, at, extract, d.output@)
}

/// `extract` can be asked for the texts of a block.
pub open spec fn readable<F: Fn(Cell, Cell) -> String>(b: Block, at: Source, extract: F) -> bool {
    &&& can_extract(b.command_rows(at.history, at.cols), extract)
    &&& !b.silent() ==> can_extract(b.output_rows(at.history, at.cols), extract)
}

fn read_block<F: Fn(Cell, Cell) -> String>(b: &Block, at: &Source, extract: &F) -> (d: BlockData)
    requires
        b.in_reach(at.history),
        readable(*b, *at, *extract),
    ensures
        block_read(*b, *at, *extract, d),
{
    let command = match block_command_text(b, at.history, at.cols, extract) {
        Some(s) => s,
        None => String::new(),
    };
    let output = match block_output_text(b, at.history, at.cols, extract) {
        Some(s) => s,
        None => String::new(),
    };
    BlockData { info: block_to_info(b), command, output }
}

/// The list of blocks.
pub open spec fn blocks_listed(blocks: &Vec<Block>, cursor: Option<u32>, r: OutPayload) -> bool {
    r matches OutPayload::Blocks { blocks: out, cursor: c } && {
        &&& c == cursor
        &&& out@.len() == blocks@.len()
        &&& forall|i: int| 0 <= i < blocks@.len() ==> tells(#[trigger] out@[i], blocks@[i])
    }
}

/// Answer with the blocks of a tab.
pub fn blocks_reply(blocks: &Vec<Block>, cursor: Option<u32>) -> (r: OutPayload)
    ensures
        blocks_listed(blocks, cursor, r),
{
    let mut out: Vec<BlockInfo> = Vec::new();
    let mut i: usize = 0;
    while i < blocks.len()
        invariant
            i <= blocks@.len(),
            out@.len() == i,
            forall|k: int| 0 <= k < i ==> tells(#[trigger] out@[k], blocks@[k]),
        decreases blocks.len() - i,
    {
        out.push(block_to_info(&blocks[i]));
        i = i + 1;
    }
    OutPayload::Blocks { blocks: out, cursor }
}

/// The first block with that id; the number of blocks where there is none.
pub open spec fn block_pos(blocks: Seq<Block>, id: u32) -> int
    decreases blocks.len(),
{
    if blocks.len() == 0 || blocks[0].id == id {
        0
    } else {
        1 + block_pos(blocks.drop_first(), id)
    }
}

/// `r` answers with this error.
pub open spec fn fails(r: OutPayload, message: Seq<char>) -> bool {
    r matches OutPayload::Error { message: m } && m@ == message
}

/// The answer on one block.
pub open spec fn block_told<F: Fn(Cell, Cell) -> String>(
    tab_id: u64,
    block_id: u32,
    blocks: &Vec<Block>,
    at: &Source,
    extract: &F,
    r: OutPayload,
) -> bool {
    let k = block_pos(blocks@, block_id);
    if k < blocks@.len() {
        r matches OutPayload::Block { block } && block_read(
            blocks@[k],
            *at,
            *extract,
            block,
        )
    } else {
        fails(
            r,
            "no block with id "@ + digits(block_id as nat) + " in tab "@ + digits(
                tab_id as nat,
            ),
        )
    }
}

/// Answer with one block of a tab.
pub fn block_reply<F: Fn(Cell, Cell) -> String>(
    tab_id: u64,
    block_id: u32,
    blocks: &Vec<Block>,
    at: &Source,
    extract: &F,
) -> (r: OutPayload)
    requires
        forall|i: int| 0 <= i < blocks@.len() ==> (#[trigger] blocks@[i]).in_reach(at.history),
        forall|i: int| 0 <= i < blocks@.len() ==> readable(#[trigger] blocks@[i], *at, *extract),
    ensures
        block_told(tab_id, block_id, blocks, at, extract, r),
{
    let mut i: usize = 0;
    assert(blocks@.skip(0) =~= blocks@);
    while i < blocks.len() && blocks[i].id != block_id
        invariant
            i <= blocks@.len(),
            block_pos(blocks@, block_id) == i + block_pos(blocks@.skip(i as int), block_id),
        decreases blocks.len() - i,
    {
        assert(blocks@.skip(i as int).drop_first() =~= blocks@.skip(i + 1));
        i = i + 1;
    }
    if i < blocks.len() {
        assert(blocks@[i as int].in_reach(at.history));
        return OutPayload::Block { block: read_block(&blocks[i], at, extract) };
    }
    let mut message = "no block with id ".to_owned();
    push_number(&mut message, block_id as u64);
    message.append(" in tab ");
    push_number(&mut message, tab_id);
    OutPayload::Error { message }
}

/// The blocks from an id on; all of them where there is none.
pub open spec fn from_block(blocks: Seq<Block>, since: Option<u32>) -> Seq<Block>
    decreases blocks.len(),
{
    if blocks.len() == 0 {
        Seq::empty()
    } else {
        let rest = from_block(blocks.drop_last(), since);
        if since matches Some(n) && blocks.last().id < n {
            rest
        } else {
            rest.push(blocks.last())
        }
    }
}

/// The answer to an export.
pub open spec fn blocks_exported<F: Fn(Cell, Cell) -> String>(
    tab_id: u64,
    since: Option<u32>,
    blocks: &Vec<Block>,
    at: &Source,
    extract: &F,
    r: OutPayload,
) -> bool {
    r matches OutPayload::Export { tab_id: t, blocks: out } && {
        let want = from_block(blocks@, since);
        &&& t == tab_id
        &&& out@.len() == want.len()
        &&& forall|i: int|
            0 <= i < want.len() ==> block_read(want[i], *at, *extract, #[trigger] out@[i])
    }
}

/// Answer with the blocks of a tab and their texts, from some id on. A client
/// can take a session in chunks.
pub fn export_reply<F: Fn(Cell, Cell) -> String>(
    tab_id: u64,
    since: Option<u32>,
    blocks: &Vec<Block>,
    at: &Source,
    extract: &F,
) -> (r: OutPayload)
    requires
        forall|i: int| 0 <= i < blocks@.len() ==> (#[trigger] blocks@[i]).in_reach(at.history),
        forall|i: int| 0 <= i < blocks@.len() ==> readable(#[trigger] blocks@[i], *at, *extract),
    ensures
        blocks_exported(tab_id, since, blocks, at, extract, r),
{
    let mut out: Vec<BlockData> = Vec::new();
    let mut i: usize = 0;
    while i < blocks.len()
        invariant
            i <= blocks@.len(),
            forall|i: int| 0 <= i < blocks@.len() ==> (#[trigger] blocks@[i]).in_reach(at.history),
            forall|i: int| 0 <= i < blocks@.len() ==> readable(#[trigger] blocks@[i], *at, *extract),
            out@.len() == from_block(blocks@.take(i as int), since).len(),
            forall|k: int|
                0 <= k < out@.len() ==> block_read(
                    from_block(blocks@.take(i as int), since)[k],
                    *at,
                    *extract,
                    #[trigger] out@[k],
                ),
        decreases blocks.len() - i,
    {
        assert(blocks@.take(i + 1).drop_last() =~= blocks@.take(i as int));
        assert(blocks@[i as int].in_reach(at.history));
        let early = match since {
            Some(n) => blocks[i].id < n,
            None => false,
        };
        if !early {
            out.push(read_block(&blocks[i], at, extract));
        }
        i = i + 1;
    }
    assert(blocks@.take(blocks@.len() as int) =~= blocks@);
    OutPayload::Export { tab_id, blocks: out }
}

/// Answer whether a tag was added to a block.
pub fn set_tag_reply(added: bool, tag: &str, block_id: u32) -> (r: OutPayload)
    ensures
        if added {
            r is Done
        } else {
            fails(
                r,
                "could not add tag "@ + quoted_text(tag@) + " to block "@ + digits(block_id as nat),
            )
        },
{
    if added {
        return OutPayload::Done;
    }
    let mut message = "could not add tag ".to_owned();
    message.append(quoted(tag).as_str());
    message.append(" to block ");
    push_number(&mut message, block_id as u64);
    OutPayload::Error { message }
}

/// Answer whether a tag was taken off a block.
pub fn remove_tag_reply(removed: bool, tag: &str, block_id: u32) -> (r: OutPayload)
    ensures
        if removed {
            r is Done
        } else {
            fails(
                r,
                "tag "@ + quoted_text(tag@) + " not present on block "@ + digits(block_id as nat),
            )
        },
{
    if removed {
        return OutPayload::Done;
    }
    let mut message = "tag ".to_owned();
    message.append(quoted(tag).as_str());
    message.append(" not present on block ");
    push_number(&mut message, block_id as u64);
    OutPayload::Error { message }
}

/// Answer whether the cursor was put on a block.
pub fn cursor_reply(found: bool, block_id: u32) -> (r: OutPayload)
    ensures
        if found {
            r is Done
        } else {
            fails(r, "no block with id "@ + digits(block_id as nat))
        },
{
    if found {
        return OutPayload::Done;
    }
    let mut message = "no block with id ".to_owned();
    push_number(&mut message, block_id as u64);
    OutPayload::Error { message }
}

/// The list of activities.
pub open spec fn activities_listed(list: &Vec<Activity>, r: OutPayload) -> bool {
    r matches OutPayload::Activities { activities } && {
        &&& activities@.len() == list@.len()
        &&& forall|i: int|
            0 <= i < list@.len() ==> activity_told(#[trigger] activities@[i], list@[i])
    }
}

/// Answer with activities of the room.
pub fn activities_reply(list: &Vec<Activity>) -> (r: OutPayload)
    ensures
        activities_listed(list, r),
{
    let mut out: Vec<ActivityInfo> = Vec::new();
    let mut i: usize = 0;
    while i < list.len()
        invariant
            i <= list@.len(),
            out@.len() == i,
            forall|k: int| 0 <= k < i ==> activity_told(#[trigger] out@[k], list@[k]),
        decreases list.len() - i,
    {
        out.push(activity_to_info(&list[i]));
        i = i + 1;
    }
    OutPayload::Activities { activities: out }
}

/// The list of those present.
pub open spec fn who_listed(present: &Vec<Presence>, r: OutPayload) -> bool {
    r matches OutPayload::RoomWho { actors } && {
        &&& actors@.len() == present@.len()
        &&& forall|i: int|
            0 <= i < present@.len() ==> presence_told(#[trigger] actors@[i], present@[i])
    }
}

/// Answer with who is present.
pub fn room_who_reply(present: &Vec<Presence>) -> (r: OutPayload)
    ensures
        who_listed(present, r),
{
    let mut out: Vec<ActorInfo> = Vec::new();
    let mut i: usize = 0;
    while i < present.len()
        invariant
            i <= present@.len(),
            out@.len() == i,
            forall|k: int| 0 <= k < i ==> presence_told(#[trigger] out@[k], present@[k]),
        decreases present.len() - i,
    {
        out.push(presence_to_info(&present[i]));
        i = i + 1;
    }
    OutPayload::RoomWho { actors: out }
}

/// Answer with the presence that a client has been given.
pub fn joined_reply(p: &Presence) -> (r: (OutPayload, Effects))
    ensures
        r.0 matches OutPayload::Joined { actor } && presence_told(actor, *p),
        r.1 == draw(),
{
    (OutPayload::Joined { actor: presence_to_info(p) }, redraw())
}

/// A claim on a file.
pub struct Claim {
    pub path: String,
    pub slug: String,
    pub claimed_at_ms: u64,
}

/// How many whole seconds a claim is old.
pub open spec fn claim_age(claimed_at_ms: u64, now_ms: u64) -> int {
    if now_ms >= claimed_at_ms {
        (now_ms - claimed_at_ms) / 1000
    } else {
        0
    }
}

fn seconds_since(claimed_at_ms: u64, now_ms: u64) -> (r: u64)
    ensures
        r == claim_age(claimed_at_ms, now_ms),
{
    if now_ms >= claimed_at_ms {
        (now_ms - claimed_at_ms) / 1000
    } else {
        0
    }
}

/// The answer on one file.
pub open spec fn status_told(
    path: String,
    holder: Option<&Claim>,
    now_ms: u64,
    r: OutPayload,
) -> bool {
    r matches OutPayload::FileStatus { path: p, held_by, held_seconds_ago } && {
        &&& p == path
        &&& match holder {
            Some(c) => held_by == Some(c.slug) && (held_seconds_ago matches Some(n) && n
                == claim_age(c.claimed_at_ms, now_ms)),
            None => held_by is None && held_seconds_ago is None,
        }
    }
}

/// Answer with who holds a path, if anyone does.
pub fn file_status_reply(path: String, holder: Option<&Claim>, now_ms: u64) -> (r: OutPayload)
    ensures
        status_told(path, holder, now_ms, r),
{
    match holder {
        Some(c) => OutPayload::FileStatus {
            path,
            held_by: Some(c.slug.clone()),
            held_seconds_ago: Some(seconds_since(c.claimed_at_ms, now_ms)),
        },
        None => OutPayload::FileStatus { path, held_by: None, held_seconds_ago: None },
    }
}

/// The list of claims.
pub open spec fn files_listed(claims: &Vec<Claim>, now_ms: u64, r: OutPayload) -> bool {
    r matches OutPayload::Files { claims: out } && {
        &&& out@.len() == claims@.len()
        &&& forall|i: int|
            0 <= i < claims@.len() ==> (#[trigger] out@[i]).path == claims@[i].path
                && out@[i].actor == claims@[i].slug && out@[i].seconds_ago == claim_age(
                claims@[i].claimed_at_ms,
                now_ms,
            )
    }
}

/// Answer with every live claim, in the order of `claims`.
pub fn files_reply(claims: &Vec<Claim>, now_ms: u64) -> (r: OutPayload)
    ensures
        files_listed(claims, now_ms, r),
{
    let mut out: Vec<FileClaimInfo> = Vec::new();
    let mut i: usize = 0;
    while i < claims.len()
        invariant
            i <= claims@.len(),
            out@.len() == i,
            forall|k: int|
                0 <= k < i ==> (#[trigger] out@[k]).path == claims@[k].path && out@[k].actor
                    == claims@[k].slug && out@[k].seconds_ago == claim_age(
                    claims@[k].claimed_at_ms,
                    now_ms,
                ),
        decreases claims.len() - i,
    {
        out.push(
            FileClaimInfo {
                path: claims[i].path.clone(),
                actor: claims[i].slug.clone(),
                seconds_ago: seconds_since(claims[i].claimed_at_ms, now_ms),
            },
        );
        i = i + 1;
    }
    OutPayload::Files { claims: out }
}

/// What is counted of a tab's blocks.
pub struct BlockCounts {
    pub blocks: usize,
    pub open_block: Option<u32>,
    pub cursor_block: Option<u32>,
}

/// `s` is what is counted of tab `t`.
pub open spec fn tab_counted(t: Tab, c: BlockCounts, s: TabStats) -> bool {
    &&& s.tab_id == t.id.0
    &&& s.title == t.title
    &&& s.cols == t.cols
    &&& s.rows == t.rows
    &&& s.blocks == c.blocks
    &&& s.open_block == c.open_block
    &&& s.cursor_block == c.cursor_block
    &&& s.has_image == (t.image is Some)
}

impl Renderer {
    /// What the statistics tell of each tab.
    pub open spec fn stats_told(self, counts: &Vec<BlockCounts>, r: Vec<TabStats>) -> bool {
        &&& r@.len() == self.ws.all().len()
        &&& (forall|i: int|
            0 <= i < r@.len() ==> tab_counted(self.ws.all()[i], counts@[i], #[trigger] r@[i]))
    }

    /// What is counted of every tab; `counts` has what is counted of its
    /// blocks.
    pub fn proto_stats(&self, counts: &Vec<BlockCounts>) -> (r: Vec<TabStats>)
        requires
            self.wf(),
            counts@.len() == self.ws.all().len(),
        ensures
            self.stats_told(counts, r),
    {
        let ghost all = self.ws.all();
        let mut tabs: Vec<&Tab> = Vec::new();
        let ghost n = tabs@.len();
        self.ws.root_ref().all_tabs(&mut tabs);
        assert forall|k: int| 0 <= k < all.len() implies *(#[trigger] tabs@[k]) == all[k] by {
            assert(*tabs@[n + k] == all[k]);
        }
        let mut r: Vec<TabStats> = Vec::new();
        let mut i: usize = 0;
        while i < tabs.len()
            invariant
                i <= tabs@.len(),
                tabs@.len() == all.len(),
                counts@.len() == all.len(),
                forall|k: int| 0 <= k < all.len() ==> *(#[trigger] tabs@[k]) == all[k],
                r@.len() == i,
                forall|k: int| 0 <= k < i ==> tab_counted(all[k], counts@[k], #[trigger] r@[k]),
            decreases tabs.len() - i,
        {
            let t = tabs[i];
            r.push(
                TabStats {
                    tab_id: t.id.0,
                    title: t.title.clone(),
                    cols: t.cols,
                    rows: t.rows,
                    blocks: counts[i].blocks,
                    open_block: counts[i].open_block,
                    cursor_block: counts[i].cursor_block,
                    has_image: t.image.is_some(),
                },
            );
            i = i + 1;
        }
        r
    }

    /// `self` is `before` once `actor` has asked for `path`, and `r` is the
    /// answer; `conflict` is who holds the path, if somebody else does.
    pub open spec fn claim_answered(
        self,
        before: Renderer,
        actor: Seq<char>,
        path: Seq<char>,
        conflict: Option<String>,
        r: OutPayload,
    ) -> bool {
        &&& r matches OutPayload::FileClaim { path: p, conflict: c } && p@ == path && c == conflict
        &&& self == Renderer { file_waiters: self.file_waiters, ..before }
        &&& match conflict {
            None => self == before,
            Some(_) => {
                &&& self.file_waiters.waiting(path) == joined_queue(
                    before.file_waiters.waiting(path),
                    actor,
                )
                &&& forall|p: Seq<char>|
                    p != path ==> #[trigger] self.file_waiters.waiting(p)
                        == before.file_waiters.waiting(p)
            },
        }
    }

    /// Answer a claim on a file. It is the host's to grant; whoever is refused
    /// waits in line, and is told when the file is free.
    pub fn file_claimed(&mut self, actor: &str, path: &str, conflict: Option<String>) -> (r:
        OutPayload)
        requires
            old(self).wf(),
        ensures
            final(self).wf(),
            final(self).claim_answered(*old(self), actor@, path@, conflict, r),
    {
        if conflict.is_some() {
            self.file_waiters.join(path, actor);
        }
        OutPayload::FileClaim { path: path.to_owned(), conflict }
    }

    /// A client has connected. Whoever is subscribed stays so.
    pub fn handle_proto_connect(&mut self)
        requires
            old(self).wf(),
        ensures
            *final(self) == *old(self),
    {
    }

    /// A connection has closed: it is subscribed no more, and receives nothing
    /// for anybody. `left` says whether somebody was present through it.
    pub fn handle_proto_disconnect(&mut self, conn: u64, left: bool) -> (e: Effects)
        requires
            old(self).wf(),
        ensures
            final(self).wf(),
            *final(self) == (Renderer {
                proto_subscriber: if old(self).proto_subscriber == Some(conn) {
                    None
                } else {
                    old(self).proto_subscriber
                },
                room: final(self).room,
                ..*old(self)
            }),
            forall|s: Seq<char>| #[trigger]
                final(self).room.actor(s) == disconnected(old(self).room.actor(s), conn),
            e == (if left {
                draw()
            } else {
                nothing()
            }),
    {
        if let Some(c) = self.proto_subscriber {
            if c == conn {
                self.proto_subscriber = None;
            }
        }
        self.room.drop_connection(conn);
        if left {
            redraw()
        } else {
            no_effects()
        }
    }
}

/// What a shell mark did to the blocks of its tab.
#[derive(Copy, Clone, PartialEq, Eq, Debug)]
pub struct MarkEffect {
    /// The block that was closed, with its exit code.
    pub closed: Option<(u32, Option<i32>)>,
    pub opened: Option<u32>,
}

/// The events that a mark gives rise to. A block is closed before the next one
/// is opened.
pub open spec fn mark_events(tab_id: u64, m: MarkEffect) -> Seq<EventPayload> {
    (match m.closed {
        Some(c) => seq![EventPayload::BlockClosed { tab_id, block_id: c.0, exit_code: c.1 }],
        None => Seq::empty(),
    }) + (match m.opened {
        Some(b) => seq![EventPayload::BlockOpened { tab_id, block_id: b }],
        None => Seq::empty(),
    })
}

impl Renderer {
    /// Tell the subscriber something: the connection that the event goes to,
    /// where there is one.
    pub fn proto_emit_event(&self, event: EventPayload) -> (r: Option<(u64, EventPayload)>)
        ensures
            r == (match self.proto_subscriber {
                Some(c) => Some((c, event)),
                None => None,
            }),
    {
        match self.proto_subscriber {
            Some(c) => Some((c, event)),
            None => None,
        }
    }

    /// What the outcome of an event sent changes.
    pub open spec fn event_settled(self, before: Renderer, conn: u64, sent: bool) -> bool {
        self == (Renderer {
            proto_subscriber: if !sent && before.proto_subscriber == Some(conn) {
                None
            } else {
                before.proto_subscriber
            },
            ..before
        })
    }

    /// An event has been handed to the connection `conn`; `sent` says whether
    /// it was taken. A subscriber that is gone, or too slow, is dropped.
    pub fn event_answered(&mut self, conn: u64, sent: bool)
        requires
            old(self).wf(),
        ensures
            final(self).wf(),
            final(self).event_settled(*old(self), conn, sent),
    {
        if let Some(c) = self.proto_subscriber {
            if c == conn && !sent {
                self.proto_subscriber = None;
            }
        }
    }

    /// The events that a shell mark gives.
    pub open spec fn marks_told(
        self,
        id: TabId,
        m: MarkEffect,
        r: (Vec<EventPayload>, Effects),
    ) -> bool {
        &&& r.0@ == (if self.ws.tree().has_tab(id) {
            mark_events(id.0, m)
        } else {
            Seq::empty()
        })
        &&& r.1 == draw()
    }

    /// A shell has marked where a block begins or ends; `m` is what that did,
    /// for a tab that is still there. The result lists the events that the
    /// subscriber is told of, in order.
    pub fn handle_shell_integration(&self, id: TabId, m: MarkEffect) -> (r: (
        Vec<EventPayload>,
        Effects,
    ))
        requires
            self.wf(),
        ensures
            self.marks_told(id, m, r),
    {
        let mut events: Vec<EventPayload> = Vec::new();
        if self.ws.root_ref().holds_tab(id) {
            if let Some((block_id, exit_code)) = m.closed {
                events.push(EventPayload::BlockClosed { tab_id: id.0, block_id, exit_code });
            }
            if let Some(block_id) = m.opened {
                events.push(EventPayload::BlockOpened { tab_id: id.0, block_id });
            }
            assert(events@ =~= mark_events(id.0, m));
        }
        (events, redraw())
    }
}

} // verus!

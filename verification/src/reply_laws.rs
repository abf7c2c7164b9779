//! What the answers to a client hold: everything that was asked for, each item
//! in its place and as it is.

use crate::block_laws::law_block_is_found_by_id;
use crate::blocks::Block;
use crate::config::{config_described, ConfigEntry, ConfigKey, LiveConfig, Shown};
use crate::json::{json_numbers, json_strings, params_read, Params};
use crate::renderer::{Effects, Renderer};
use crate::replies::{
    activities_listed, block_told, blocks_exported, blocks_listed, files_listed, from_block,
    status_told, who_listed, BlockCounts, Claim, MarkEffect, Source,
};
use crate::selection::Cell;
use crate::tab::TabId;
use crate::text::{digits, lowercase};
use crate::wire::{Activity, EventPayload, OutPayload, Presence, TabStats};
use vstd::prelude::*;

verus! {

/// The list of claims has every claim, with its path, who holds it, and for how
/// many whole seconds.
pub proof fn law_claims_are_listed(claims: Vec<Claim>, now: u64, r: OutPayload, i: int)
    requires
        files_listed(&claims, now, r),
        0 <= i < claims@.len(),
    ensures
        r matches OutPayload::Files { claims: out } && {
            &&& out@.len() == claims@.len()
            &&& out@[i].path@ == claims@[i].path@
            &&& out@[i].actor@ == claims@[i].slug@
            &&& claims@[i].claimed_at_ms <= now ==> out@[i].seconds_ago * 1000 <= now
                - claims@[i].claimed_at_ms < out@[i].seconds_ago * 1000 + 1000
            &&& claims@[i].claimed_at_ms > now ==> out@[i].seconds_ago == 0
        },
{
}

/// The answer on a file names its holder and how long it has been held, or
/// nobody.
pub proof fn law_file_is_told(path: String, holder: Option<&Claim>, now: u64, r: OutPayload)
    requires
        status_told(path, holder, now, r),
    ensures
        r matches OutPayload::FileStatus { path: p, held_by, held_seconds_ago } && {
            &&& p@ == path@
            &&& holder is None ==> held_by is None && held_seconds_ago is None
            &&& holder is Some ==> held_by is Some && held_by->0@ == holder->0.slug@
            &&& holder is Some && holder->0.claimed_at_ms <= now ==> held_seconds_ago is Some
                && held_seconds_ago->0 * 1000 <= now - holder->0.claimed_at_ms
                < held_seconds_ago->0 * 1000 + 1000
            &&& holder is Some && holder->0.claimed_at_ms > now ==> held_seconds_ago == Some(0u64)
        },
{
}

/// The list of blocks has every block, oldest first, with its rows, its exit
/// code and its tags, and says which one the cursor is at.
pub proof fn law_blocks_are_listed(blocks: Vec<Block>, cursor: Option<u32>, r: OutPayload, i: int)
    requires
        blocks_listed(&blocks, cursor, r),
        0 <= i < blocks@.len(),
    ensures
        r matches OutPayload::Blocks { blocks: out, cursor: c } && {
            &&& c == cursor
            &&& out@.len() == blocks@.len()
            &&& out@[i].id == blocks@[i].id
            &&& out@[i].exit_code == blocks@[i].exit_code
            &&& out@[i].prompt_line == blocks@[i].prompt_line
            &&& out@[i].command_end_line == blocks@[i].command_end_line
            &&& out@[i].output_start_line == blocks@[i].output_start_line
            &&& out@[i].output_end_line == blocks@[i].output_end_line
            &&& out@[i].tags@ == blocks@[i].tags@
        },
{
}

/// Asked for a block by its id, a tab gives that block with the text of its
/// command and of its output, as they stand on its rows; a block without rows
/// for one has no text there.
pub proof fn law_block_is_read<F: Fn(Cell, Cell) -> String>(
    tab: u64,
    id: u32,
    blocks: Vec<Block>,
    at: Source,
    extract: F,
    r: OutPayload,
    k: int,
)
    requires
        block_told(tab, id, &blocks, &at, &extract, r),
        0 <= k < blocks@.len(),
        blocks@[k].id == id,
        forall|j: int| 0 <= j < k ==> (#[trigger] blocks@[j]).id != id,
    ensures
        r matches OutPayload::Block { block } && {
            let b = blocks@[k];
            &&& block.info.id == id
            &&& block.info.exit_code == b.exit_code
            &&& block.info.tags@ == b.tags@
            &&& match b.command_rows(at.history, at.cols) {
                Some(rows) => exists|t: String|
                    #[trigger] call_ensures(extract, (rows.0, rows.1), t) && t@ == block.command@,
                None => block.command@.len() == 0,
            }
            &&& match b.output_rows(at.history, at.cols) {
                Some(rows) => exists|t: String|
                    #[trigger] call_ensures(extract, (rows.0, rows.1), t) && t@ == block.output@,
                None => block.output@.len() == 0,
            }
        },
{
    law_block_is_found_by_id(blocks@, id);
}

/// A block that is not there is not made up: the answer is an error that names
/// the block and the tab.
pub proof fn law_missing_block_is_an_error<F: Fn(Cell, Cell) -> String>(
    tab: u64,
    id: u32,
    blocks: Vec<Block>,
    at: Source,
    extract: F,
    r: OutPayload,
)
    requires
        block_told(tab, id, &blocks, &at, &extract, r),
        forall|j: int| 0 <= j < blocks@.len() ==> (#[trigger] blocks@[j]).id != id,
    ensures
        r matches OutPayload::Error { message } && message@ == "no block with id "@ + digits(
            id as nat,
        ) + " in tab "@ + digits(tab as nat),
{
    law_block_is_found_by_id(blocks@, id);
}

/// The blocks from the asked one on.
pub open spec fn from_there(since: Option<u32>) -> spec_fn(Block) -> bool {
    |b: Block| since is None || b.id >= since->0
}

proof fn lemma_from_there(bs: Seq<Block>, since: Option<u32>)
    ensures
        from_block(bs, since) == bs.filter(from_there(since)),
    decreases bs.len(),
{
    reveal(Seq::filter);
    if bs.len() > 0 {
        lemma_from_there(bs.drop_last(), since);
    }
    assert(from_block(bs, since) =~= bs.filter(from_there(since)));
}

/// An export holds every block from the asked one on, and no other, in order.
pub proof fn law_export_holds_what_was_asked<F: Fn(Cell, Cell) -> String>(
    tab: u64,
    since: Option<u32>,
    blocks: Vec<Block>,
    at: Source,
    extract: F,
    r: OutPayload,
)
    requires
        blocks_exported(tab, since, &blocks, &at, &extract, r),
    ensures
        r matches OutPayload::Export { tab_id, blocks: out } && {
            let want = blocks@.filter(from_there(since));
            &&& tab_id == tab
            &&& out@.len() == want.len()
            &&& forall|i: int|
                0 <= i < want.len() ==> (#[trigger] out@[i]).info.id == want[i].id
                    && out@[i].info.exit_code == want[i].exit_code && out@[i].info.tags@
                    == want[i].tags@
            &&& forall|i: int|
                0 <= i < want.len() ==> match want[i].output_rows(at.history, at.cols) {
                    Some(rows) => exists|t: String|
                        #[trigger] call_ensures(extract, (rows.0, rows.1), t) && t@ == (
                        #[trigger] out@[i]).output@,
                    None => out@[i].output@.len() == 0,
                }
        },
{
    lemma_from_there(blocks@, since);
}

/// The roster has everybody who is present: name, colour and pane.
pub proof fn law_roster_is_whole(present: Vec<Presence>, r: OutPayload, i: int)
    requires
        who_listed(&present, r),
        0 <= i < present@.len(),
    ensures
        r matches OutPayload::RoomWho { actors } && {
            &&& actors@.len() == present@.len()
            &&& actors@[i].slug@ == present@[i].slug@
            &&& actors@[i].base@ == present@[i].base@
            &&& actors@[i].color@ == present@[i].color_name@
            &&& actors@[i].rgb@.len() == 3
            &&& actors@[i].rgb@[0] == present@[i].rgb.0
            &&& actors@[i].rgb@[1] == present@[i].rgb.1
            &&& actors@[i].rgb@[2] == present@[i].rgb.2
            &&& actors@[i].pane == present@[i].pane
        },
{
}

/// The log has every activity: who did what under which title and how it
/// stands, and of a message whom it was for and what it said.
pub proof fn law_log_is_whole(list: Vec<Activity>, r: OutPayload, i: int)
    requires
        activities_listed(&list, r),
        0 <= i < list@.len(),
    ensures
        r matches OutPayload::Activities { activities } && {
            let a = list@[i];
            let told = activities@[i];
            &&& activities@.len() == list@.len()
            &&& told.id == a.id
            &&& told.actor@ == a.actor@
            &&& told.agent_name == a.agent_name
            &&& told.kind@ == a.kind_name@
            &&& told.title@ == a.title@
            &&& told.status@ == lowercase(a.status@)
            &&& a.kind is AgentMessage ==> told.to == a.kind->to && told.text == Some(a.kind->text)
            &&& a.kind is ToolCall ==> told.to is None && told.text is None
        },
{
}

/// The statistics tell of every tab, in order: its title, its size, and what
/// was counted in it.
pub proof fn law_every_tab_is_counted(
    w: Renderer,
    counts: Vec<BlockCounts>,
    r: Vec<TabStats>,
    i: int,
)
    requires
        w.stats_told(&counts, r),
        0 <= i < w.ws.all().len(),
    ensures
        ({
            let t = w.ws.all()[i];
            &&& r@.len() == w.ws.all().len()
            &&& r@[i].tab_id == t.id.0
            &&& r@[i].title@ == t.title@
            &&& r@[i].cols == t.cols
            &&& r@[i].rows == t.rows
            &&& r@[i].blocks == counts@[i].blocks
            &&& r@[i].open_block == counts@[i].open_block
            &&& r@[i].cursor_block == counts@[i].cursor_block
            &&& r@[i].has_image <==> t.image is Some
        }),
{
}

/// A mark of the shell is told of a tab that is there, the block that ends
/// before the one that begins; of another tab nothing is told.
pub proof fn law_marks_are_told_of_their_tab(
    w: Renderer,
    id: TabId,
    m: MarkEffect,
    r: (Vec<EventPayload>, Effects),
)
    requires
        w.marks_told(id, m, r),
    ensures
        !w.ws.tree().has_tab(id) ==> r.0@.len() == 0,
        w.ws.tree().has_tab(id) ==> r.0@.len() == (if m.closed is Some {
            1int
        } else {
            0
        }) + (if m.opened is Some {
            1int
        } else {
            0
        }),
        w.ws.tree().has_tab(id) ==> (m.closed matches Some(c) ==> r.0@[0]
            == (EventPayload::BlockClosed { tab_id: id.0, block_id: c.0, exit_code: c.1 })),
        w.ws.tree().has_tab(id) ==> (m.opened matches Some(b) ==> r.0@.last()
            == (EventPayload::BlockOpened { tab_id: id.0, block_id: b })),
        r.1.redraw,
{
}

/// A subscriber that cannot be reached any more is let go; another one stays.
pub proof fn law_lost_subscriber_is_let_go(before: Renderer, after: Renderer, conn: u64, sent: bool)
    requires
        after.event_settled(before, conn, sent),
    ensures
        !sent && before.proto_subscriber == Some(conn) ==> after.proto_subscriber is None,
        sent || before.proto_subscriber != Some(conn) ==> after.proto_subscriber
            == before.proto_subscriber,
        after.ws == before.ws,
        after.room == before.room,
{
}

/// Every setting is described under its name: its kind, its default, its help,
/// and what it is now.
pub proof fn law_settings_are_described(
    schema: Vec<ConfigKey>,
    live: LiveConfig,
    r: Vec<ConfigEntry>,
    i: int,
)
    requires
        config_described(&schema, &live, r),
        0 <= i < schema@.len(),
    ensures
        r@.len() == schema@.len(),
        r@[i].name@ == schema@[i].name@,
        r@[i].kind@ == schema@[i].kind.label(),
        r@[i].default == schema@[i].default,
        r@[i].doc@ == schema@[i].doc@,
        r@[i].hot_reload == schema@[i].hot_reload,
        r@[i].current is Some <==> live.value(schema@[i].name@) is Some,
        r@[i].current is Some ==> live.value(schema@[i].name@) == Some(r@[i].current->0@),
        schema@[i].name@ == "font_size"@ ==> live.value(schema@[i].name@) == Some(
            Shown::Number(live.font_size),
        ),
{
    crate::config_laws::law_setting_is_told_by_its_name(live);
}

/// A tab hears of the settings exactly where a module runs in it, and then of
/// all of them.
pub proof fn law_module_hears_the_settings(
    w: Renderer,
    id: TabId,
    schema: Vec<ConfigKey>,
    live: LiveConfig,
    r: Option<Vec<ConfigEntry>>,
    i: int,
)
    requires
        w.config_sent(id, &schema, &live, r),
    ensures
        r is Some <==> w.ws.tree().has_tab(id) && w.ws.tree().tab(id).module_session is Some,
        r is Some ==> r->0@.len() == schema@.len(),
        r is Some && 0 <= i < schema@.len() ==> r->0@[i].name@ == schema@[i].name@
            && r->0@[i].default == schema@[i].default && r->0@[i].kind@ == schema@[i].kind.label(),
{
}

/// Each parameter of a request is read from the member of its own name; one that
/// is missing, or is no number or no text where it should be, counts as absent.
pub proof fn law_parameters_are_read_by_name(v: serde_json::Value, p: Params)
    requires
        params_read(v, p),
    ensures
        p.tab_id is Some <==> json_numbers(v).contains_key("tab_id"@),
        p.tab_id is Some ==> p.tab_id->0 == json_numbers(v)["tab_id"@],
        p.block_id is Some <==> json_numbers(v).contains_key("block_id"@),
        p.block_id is Some ==> p.block_id->0 == json_numbers(v)["block_id"@],
        p.since is Some <==> json_numbers(v).contains_key("since"@),
        p.since is Some ==> p.since->0 == json_numbers(v)["since"@],
        p.pane is Some <==> json_numbers(v).contains_key("pane"@),
        p.pane is Some ==> p.pane->0 == json_numbers(v)["pane"@],
        p.message_id is Some <==> json_numbers(v).contains_key("message_id"@),
        p.message_id is Some ==> p.message_id->0 == json_numbers(v)["message_id"@],
        p.actor is Some <==> json_strings(v).contains_key("actor"@),
        p.actor is Some ==> p.actor->0@ == json_strings(v)["actor"@],
        p.to is Some <==> json_strings(v).contains_key("to"@),
        p.to is Some ==> p.to->0@ == json_strings(v)["to"@],
        p.kind is Some <==> json_strings(v).contains_key("kind"@),
        p.kind is Some ==> p.kind->0@ == json_strings(v)["kind"@],
        p.text is Some <==> json_strings(v).contains_key("text"@),
        p.text is Some ==> p.text->0@ == json_strings(v)["text"@],
        p.base is Some <==> json_strings(v).contains_key("base"@),
        p.base is Some ==> p.base->0@ == json_strings(v)["base"@],
        p.tool is Some <==> json_strings(v).contains_key("tool"@),
        p.tool is Some ==> p.tool->0@ == json_strings(v)["tool"@],
        p.title is Some <==> json_strings(v).contains_key("title"@),
        p.title is Some ==> p.title->0@ == json_strings(v)["title"@],
        p.tag is Some <==> json_strings(v).contains_key("tag"@),
        p.tag is Some ==> p.tag->0@ == json_strings(v)["tag"@],
        p.path is Some <==> json_strings(v).contains_key("path"@),
        p.path is Some ==> p.path->0@ == json_strings(v)["path"@],
{
}

} // verus!

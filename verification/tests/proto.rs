use terminite::blocks::{
    block_at_selection_line, block_command_text, block_labels, block_output_text, block_to_info,
    Block, LabelBlock, LabelStyle,
};
use terminite::config::{
    apply_config_set, bell_name, check_config_set, hex3, hex4, ConfigKey, ConfigKind, CurrentValue,
    DefaultValue, LiveConfig, ValueType,
};
use terminite::floor::SlugPane;
use terminite::json::{read_params, Params};
use terminite::proto::{parse_verb, ProtoStep, Verb};
use terminite::proto_room::Asking;
use terminite::renderer::{BellStyle, Renderer, Settings};
use terminite::replies::{
    activities_reply, block_reply, blocks_reply, cursor_reply, export_reply, file_status_reply,
    files_reply, joined_reply, remove_tag_reply, room_who_reply, set_tag_reply, BlockCounts, Claim,
    MarkEffect, Source,
};
use terminite::room::RoomMessage;
use terminite::selection::Cell;
use terminite::tab::{ModuleKind, ModuleManifest, TabContentKind, TabId};
use terminite::tree::{PaneId, Scalar};
use terminite::wire::{
    activity_to_info, Activity, ActivityKind, EventPayload, OutPayload, Presence,
};

fn window() -> Renderer {
    let config = Settings {
        bell_style: BellStyle::Visual,
        cursor_blink: true,
        comms_delivery: true,
    };
    let modules = vec![ModuleManifest {
        id: "notes".into(),
        name: "Notes".into(),
        version: "1".into(),
        binary: "n".into(),
        kind: ModuleKind::Data,
    }];
    Renderer::new(80, 24, (800, 600), modules, config, 0, 0)
}

fn value(text: &str) -> serde_json::Value {
    serde_json::from_str(text).unwrap()
}

fn params(text: &str) -> Params {
    read_params(&value(text))
}

fn asking<'a>(panes: &'a Vec<SlugPane>, store: &'a Vec<RoomMessage>) -> Asking<'a> {
    Asking { conn: 7, peer_pane: Some(0), panes, store, now_ms: 1000, now: 5 }
}

/// What a request comes to, in a room where kimi-1 sits in the first tab.
fn ask(r: &mut Renderer, method: &str, p: &str) -> ProtoStep {
    let panes = vec![SlugPane { slug: "kimi-1".into(), pane: 0 }];
    let store = Vec::new();
    let a = asking(&panes, &store);
    r.handle_proto_request(method, params(p), &a).0
}

fn refusal(s: ProtoStep) -> String {
    match s {
        ProtoStep::Reply(OutPayload::Error { message }) => message,
        _ => panic!("no error"),
    }
}

fn error(r: OutPayload) -> String {
    match r {
        OutPayload::Error { message } => message,
        _ => panic!("no error"),
    }
}

fn block(id: u32, prompt: i32, end: i32, out: i32, last: i32) -> Block {
    Block {
        id,
        exit_code: Some(0),
        prompt_line: Some(prompt),
        command_end_line: Some(end),
        output_start_line: Some(out),
        output_end_line: Some(last),
        tags: vec!["t".into()],
    }
}

fn cells(a: Cell, b: Cell) -> String {
    format!("{a:?}-{b:?}")
}

#[test]
fn parameters_are_read() {
    let p = params(
        r#"{"tab_id":1,"block_id":2,"since":3,"pane":4,"message_id":5,"actor":"a","to":"b",
            "kind":"c","text":"d","base":"e","tool":"f","title":"g","tag":"h","path":"i"}"#,
    );
    assert_eq!(
        (p.tab_id, p.block_id, p.since, p.pane, p.message_id),
        (Some(1), Some(2), Some(3), Some(4), Some(5))
    );
    let texts = [p.actor, p.to, p.kind, p.text, p.base, p.tool, p.title, p.tag, p.path];
    let all: String = texts.iter().map(|t| t.clone().unwrap()).collect();
    assert_eq!(all, "abcdefghi");
    // The wrong types count as missing.
    let p = params(r#"{"tab_id":"1","block_id":-2,"since":1.5,"actor":3,"to":null}"#);
    assert_eq!((p.tab_id, p.block_id, p.since), (None, None, None));
    assert!(p.actor.is_none() && p.to.is_none() && p.path.is_none());
    // So does everything where there is no object.
    let p = params("[1]");
    assert!(p.tab_id.is_none() && p.text.is_none());
}

#[test]
fn verbs_are_named() {
    let names = [
        "list_tabs", "list_blocks", "get_block", "subscribe", "set_tag", "remove_tag",
        "cursor_at", "cursor_clear", "export_tab", "stats", "list_modules", "reload_modules",
        "activities_list", "activity_emit", "room_join", "room_who", "tool_emit", "file_claim",
        "file_release", "file_status", "files", "room_subscribe", "room_ack",
    ];
    for (i, n) in names.iter().enumerate() {
        let v = parse_verb(n).unwrap();
        assert!(names[..i].iter().all(|m| parse_verb(m).unwrap() != v));
    }
    assert_eq!(parse_verb("room_ack"), Some(Verb::RoomAck));
    assert_eq!(parse_verb("List_tabs"), None);
}

#[test]
fn unknown_methods_are_refused() {
    let mut r = window();
    assert_eq!(refusal(ask(&mut r, "fly", "{}")), "unknown method: fly");
}

#[test]
fn tabs_are_listed() {
    let mut r = window();
    r.new_tab(80, 24);
    match ask(&mut r, "list_tabs", "{}") {
        ProtoStep::Reply(OutPayload::Tabs { tabs }) => {
            let ids: Vec<u64> = tabs.iter().map(|t| t.tab_id).collect();
            assert_eq!(ids, vec![0, 1]);
            assert_eq!(tabs[0].title, "terminite");
        },
        _ => panic!("no tabs"),
    }
}

#[test]
fn requests_about_blocks() {
    let mut r = window();
    assert!(matches!(
        ask(&mut r, "list_blocks", r#"{"tab_id":0}"#),
        ProtoStep::Blocks { tab_id: 0 }
    ));
    assert!(matches!(
        ask(&mut r, "get_block", r#"{"tab_id":0,"block_id":4294967298}"#),
        ProtoStep::Block { tab_id: 0, block_id: 2 }
    ));
    assert!(matches!(
        ask(&mut r, "cursor_at", r#"{"tab_id":0,"block_id":2}"#),
        ProtoStep::CursorAt { tab_id: 0, block_id: 2 }
    ));
    assert!(matches!(
        ask(&mut r, "cursor_clear", r#"{"tab_id":0}"#),
        ProtoStep::CursorClear { tab_id: 0 }
    ));
    assert!(matches!(
        ask(&mut r, "export_tab", r#"{"tab_id":0,"since":3}"#),
        ProtoStep::Export { tab_id: 0, since: Some(3) }
    ));
    match ask(&mut r, "set_tag", r#"{"tab_id":0,"block_id":2,"tag":"x"}"#) {
        ProtoStep::SetTag { tab_id: 0, block_id: 2, tag } => assert_eq!(tag, "x"),
        _ => panic!("no tag"),
    }
    match ask(&mut r, "remove_tag", r#"{"tab_id":0,"block_id":2,"tag":"x"}"#) {
        ProtoStep::RemoveTag { tab_id: 0, block_id: 2, tag } => assert_eq!(tag, "x"),
        _ => panic!("no tag"),
    }
}

#[test]
fn incomplete_requests_are_refused() {
    let mut r = window();
    let cases = [
        ("list_blocks", "{}", "missing or invalid tab_id"),
        ("list_blocks", r#"{"tab_id":8}"#, "no tab with id 8"),
        ("get_block", "{}", "missing or invalid tab_id"),
        ("get_block", r#"{"tab_id":8}"#, "missing or invalid block_id"),
        ("get_block", r#"{"tab_id":8,"block_id":1}"#, "no tab with id 8"),
        ("set_tag", r#"{"tab_id":0}"#, "missing or invalid block_id"),
        ("set_tag", r#"{"tab_id":0,"block_id":1}"#, "missing or invalid tag"),
        ("remove_tag", r#"{"block_id":1,"tag":"x"}"#, "missing or invalid tab_id"),
        ("cursor_at", r#"{"tab_id":0}"#, "missing or invalid block_id"),
        ("cursor_at", r#"{"tab_id":8,"block_id":1}"#, "no tab with id 8"),
        ("cursor_clear", "{}", "missing or invalid tab_id"),
        ("export_tab", r#"{"tab_id":8}"#, "no tab with id 8"),
        (
            "activity_emit",
            "{}",
            "activity_emit: missing actor — only a hosted agent with a room slug can emit",
        ),
        (
            "activity_emit",
            r#"{"actor":"a","kind":"x\"y"}"#,
            "activity_emit: unsupported kind \"x\\\"y\" (only agent_message)",
        ),
        (
            "activity_emit",
            r#"{"actor":"a","kind":"agent_message","text":" \n"}"#,
            "activity_emit: empty text",
        ),
        ("file_claim", r#"{"actor":"a"}"#, "file_claim: needs a room actor and a path"),
        ("file_claim", r#"{"path":"a"}"#, "file_claim: needs a room actor and a path"),
        ("room_subscribe", "{}", "room_subscribe: missing actor"),
    ];
    for (method, p, want) in cases {
        assert_eq!(refusal(ask(&mut r, method, p)), want);
    }
}

#[test]
fn modules_are_listed() {
    let mut r = window();
    match ask(&mut r, "list_modules", "{}") {
        ProtoStep::Reply(OutPayload::Modules { modules }) => assert_eq!(modules, r.modules),
        _ => panic!("no modules"),
    }
    assert!(matches!(ask(&mut r, "reload_modules", "{}"), ProtoStep::ReloadModules));
    assert!(matches!(ask(&mut r, "stats", "{}"), ProtoStep::Stats));
    assert!(matches!(ask(&mut r, "room_who", "{}"), ProtoStep::RoomWho));
    assert!(matches!(ask(&mut r, "files", "{}"), ProtoStep::Files));
}

#[test]
fn messages_are_emitted() {
    let mut r = window();
    let p = r#"{"actor":"codex-1","to":"kimi-1","kind":"agent_message","text":"hi"}"#;
    let message = match ask(&mut r, "activity_emit", p) {
        ProtoStep::Emit { message } => message,
        _ => panic!("nothing to record"),
    };
    assert_eq!((message.actor.as_str(), message.agent_name.as_str()), ("codex-1", "Codex"));
    assert_eq!((message.to.as_deref(), message.text.as_str()), (Some("kimi-1"), "hi"));
    // Nothing happens before it is recorded.
    assert!(r.room.actors.is_empty());
    assert!(r.message_recorded(&message, 9, 1000, 5).is_none());
    let kimi = r.room.actors.iter().find(|a| a.slug == "kimi-1").unwrap();
    assert_eq!(kimi.pending, vec![9]);
    match ask(&mut r, "activities_list", r#"{"actor":"a","kind":"k"}"#) {
        ProtoStep::Activities { actor, to, kind } => {
            assert_eq!((actor.as_deref(), to, kind.as_deref()), (Some("a"), None, Some("k")));
        },
        _ => panic!("no activities"),
    }
}

#[test]
fn clients_join_the_room() {
    let mut r = window();
    let joined = |r: &mut Renderer, p: &str| match ask(r, "room_join", p) {
        ProtoStep::Join { base, pane } => (base, pane),
        _ => panic!("not joined"),
    };
    assert_eq!(joined(&mut r, "{}"), ("agent".to_string(), Some(0)));
    assert_eq!(joined(&mut r, r#"{"base":"  "}"#), ("agent".to_string(), Some(0)));
    assert_eq!(joined(&mut r, r#"{"base":" kimi ","pane":3}"#), ("kimi".to_string(), Some(3)));
}

#[test]
fn tool_calls_are_put_down_to_their_pane() {
    let mut r = window();
    match ask(&mut r, "tool_emit", r#"{"tool":"Edit"}"#) {
        ProtoStep::RecordTool { slug, agent_name, tool, title } => {
            assert_eq!(
                (slug.as_str(), agent_name.as_str(), tool.as_str(), title.as_str()),
                ("kimi-1", "Kimi", "Edit", "Edit")
            );
        },
        _ => panic!("nothing recorded"),
    }
    let kimi = r.room.actors.iter().find(|a| a.slug == "kimi-1").unwrap();
    assert_eq!(kimi.last_activity, Some(5));
    match ask(&mut r, "tool_emit", r#"{"title":"T"}"#) {
        ProtoStep::RecordTool { tool, title, .. } => {
            assert_eq!((tool.as_str(), title.as_str()), ("tool", "T"));
        },
        _ => panic!("nothing recorded"),
    }
    // Nobody is present in that pane.
    assert!(matches!(
        ask(&mut r, "tool_emit", r#"{"pane":4}"#),
        ProtoStep::Reply(OutPayload::Done)
    ));
}

#[test]
fn files_are_claimed() {
    let mut r = window();
    match ask(&mut r, "file_claim", r#"{"actor":"a","path":"/x"}"#) {
        ProtoStep::Claim { actor, path } => assert_eq!((actor.as_str(), path.as_str()), ("a", "/x")),
        _ => panic!("no claim"),
    }
    match ask(&mut r, "file_release", r#"{"actor":"a"}"#) {
        ProtoStep::Release { actor, path } => assert_eq!((actor.as_str(), path.as_str()), ("a", "")),
        _ => panic!("no release"),
    }
    match ask(&mut r, "file_status", r#"{"path":"/x"}"#) {
        ProtoStep::Status { path } => assert_eq!(path, "/x"),
        _ => panic!("no status"),
    }
    match r.file_claimed("a", "/x", None) {
        OutPayload::FileClaim { path, conflict } => assert_eq!((path.as_str(), conflict), ("/x", None)),
        _ => panic!("no answer"),
    }
    assert!(r.file_waiters.queues.is_empty());
    r.file_claimed("a", "/x", Some("b".into()));
    assert_eq!(r.file_waiters.queues[0].waiters, vec!["a"]);
}

#[test]
fn receivers_are_parked() {
    let mut r = window();
    let p = r#"{"actor":"kimi-1"}"#;
    assert!(matches!(
        ask(&mut r, "room_subscribe", p),
        ProtoStep::CatchUp { pushes } if pushes.is_empty()
    ));
    assert_eq!(r.room.actors[0].conn, Some(7));
    // What came meanwhile goes out to the one that asks.
    r.room.actors[0].pending = vec![3];
    let panes = Vec::new();
    let store =
        vec![RoomMessage { message_id: 3, from: "codex-1".into(), text: "hi".into() }];
    match r.handle_proto_request("room_subscribe", params(p), &asking(&panes, &store)).0 {
        ProtoStep::CatchUp { pushes } => {
            assert_eq!(pushes.len(), 1);
            assert_eq!((pushes[0].target.as_str(), pushes[0].conn), ("kimi-1", 7));
            assert_eq!(pushes[0].message, store[0]);
        },
        _ => panic!("no catch-up"),
    }
    assert!(matches!(
        ask(&mut r, "room_ack", r#"{"message_id":3}"#),
        ProtoStep::Ack { message_id: 3 }
    ));
    assert!(matches!(ask(&mut r, "room_ack", "{}"), ProtoStep::Reply(OutPayload::Done)));
    r.room.actors[0].pending = vec![3, 4];
    assert!(matches!(r.acked(Some("kimi-1"), 3), OutPayload::Done));
    assert_eq!(r.room.actors[0].pending, vec![4]);
    r.acked(None, 4);
    assert_eq!(r.room.actors[0].pending, vec![4]);
    assert!(r.handle_proto_disconnect(7, true).redraw);
    assert_eq!(r.room.actors[0].conn, None);
}

#[test]
fn events_go_to_the_subscriber() {
    let mut r = window();
    let mark = || MarkEffect { closed: Some((1, Some(2))), opened: Some(2) };
    let (events, e) = r.handle_shell_integration(TabId(0), mark());
    assert!(e.redraw);
    assert_eq!(events.len(), 2);
    assert!(matches!(
        events[0],
        EventPayload::BlockClosed { tab_id: 0, block_id: 1, exit_code: Some(2) }
    ));
    assert!(matches!(events[1], EventPayload::BlockOpened { tab_id: 0, block_id: 2 }));
    let opened = || EventPayload::BlockOpened { tab_id: 0, block_id: 3 };
    // Nobody is subscribed.
    assert!(r.proto_emit_event(opened()).is_none());
    assert!(matches!(
        ask(&mut r, "subscribe", "{}"),
        ProtoStep::Reply(OutPayload::Subscribed)
    ));
    assert_eq!(r.proto_subscriber, Some(7));
    assert!(matches!(
        r.proto_emit_event(opened()),
        Some((7, EventPayload::BlockOpened { tab_id: 0, block_id: 3 }))
    ));
    r.event_answered(7, true);
    assert_eq!(r.proto_subscriber, Some(7));
    // Nothing for a tab that is gone.
    assert!(r.handle_shell_integration(TabId(5), mark()).0.is_empty());
    // Another client that comes and goes leaves the subscription alone.
    r.handle_proto_connect();
    assert!(!r.handle_proto_disconnect(8, false).redraw);
    r.event_answered(8, false);
    assert_eq!(r.proto_subscriber, Some(7));
    r.event_answered(7, false);
    assert_eq!(r.proto_subscriber, None);
    assert!(r.proto_emit_event(opened()).is_none());
}

#[test]
fn a_subscriber_that_leaves_is_subscribed_no_more() {
    let mut r = window();
    ask(&mut r, "subscribe", "{}");
    r.handle_proto_disconnect(7, false);
    assert_eq!(r.proto_subscriber, None);
}

#[test]
fn tabs_are_counted() {
    let mut r = window();
    r.ws.active_tab_mut().image = Some(3);
    let counts = vec![BlockCounts { blocks: 4, open_block: Some(5), cursor_block: None }];
    let s = r.proto_stats(&counts);
    assert_eq!(s.len(), 1);
    assert_eq!((s[0].tab_id, s[0].cols, s[0].rows, s[0].blocks), (0, 80, 24, 4));
    assert_eq!((s[0].open_block, s[0].cursor_block, s[0].has_image), (Some(5), None, true));
}

#[test]
fn block_answers() {
    let bs = vec![block(1, 10, 11, 12, 15), block(2, 15, 16, 17, 17)];
    let at = Source { history: 10, cols: 80 };
    match blocks_reply(&bs, Some(2)) {
        OutPayload::Blocks { blocks, cursor } => {
            assert_eq!((blocks.len(), blocks[1].id, cursor), (2, 2, Some(2)));
            assert_eq!(blocks[0].tags, vec!["t"]);
        },
        _ => panic!("no blocks"),
    }
    match block_reply(0, 1, &bs, &at, &cells) {
        OutPayload::Block { block } => {
            assert_eq!(block.command, "(0, 0)-(1, 79)");
            assert_eq!(block.output, "(2, 0)-(4, 79)");
        },
        _ => panic!("no block"),
    }
    assert_eq!(error(block_reply(3, 9, &bs, &at, &cells)), "no block with id 9 in tab 3");
    match export_reply(0, Some(2), &bs, &at, &cells) {
        OutPayload::Export { tab_id, blocks } => {
            assert_eq!((tab_id, blocks.len(), blocks[0].info.id), (0, 1, 2));
            // It ended without a row of output.
            assert_eq!(blocks[0].output, "");
        },
        _ => panic!("no export"),
    }
    match export_reply(0, None, &bs, &at, &cells) {
        OutPayload::Export { blocks, .. } => assert_eq!(blocks.len(), 2),
        _ => panic!("no export"),
    }
}

#[test]
fn block_texts() {
    let b = block(1, 10, 11, 12, 15);
    assert_eq!(block_command_text(&b, 0, 80, &cells).unwrap(), "(10, 0)-(11, 79)");
    assert_eq!(block_output_text(&b, 0, 0, &cells).unwrap(), "(12, 0)-(14, 0)");
    let unmarked = Block { command_end_line: None, ..block(1, 10, 11, 12, 15) };
    assert_eq!(block_command_text(&unmarked, 0, 80, &cells).unwrap(), "(10, 0)-(12, 79)");
    let backwards = block(1, 10, 9, 12, 12);
    assert_eq!(block_command_text(&backwards, 0, 80, &cells), None);
    assert_eq!(block_output_text(&backwards, 0, 80, &cells), Some(String::new()));
    let open = Block { output_end_line: None, ..block(1, 10, 11, 12, 15) };
    assert_eq!(block_output_text(&open, 0, 80, &cells), None);
    assert_eq!(block_to_info(&b).output_end_line, Some(15));
}

#[test]
fn a_click_prefers_a_blocks_own_rows() {
    // The first block's last mark stands on the second one's first row.
    let bs = vec![block(1, 10, 11, 12, 15), block(2, 15, 16, 17, 20)];
    assert_eq!(block_at_selection_line(&bs, 14, 0, 80), Some(((10, 0), (14, 79))));
    assert_eq!(block_at_selection_line(&bs, 15, 0, 80), Some(((15, 0), (19, 79))));
    assert_eq!(block_at_selection_line(&bs, 20, 0, 80), Some(((15, 0), (19, 79))));
    assert_eq!(block_at_selection_line(&bs, 21, 0, 80), None);
    assert_eq!(block_at_selection_line(&bs, 4, 10, 80), Some(((0, 0), (4, 79))));
}

#[test]
fn labels_of_blocks_on_screen() {
    let at = |id: u32, anchor: Option<i32>, tagged: bool| LabelBlock { id, anchor, tagged };
    let bs = vec![
        at(1, Some(3), false),
        at(2, Some(5), true),
        at(3, None, false),
        at(4, Some(6), true),
        at(5, Some(7), false),
    ];
    let got: Vec<(usize, i32, LabelStyle)> = block_labels(&bs, Some(4), 4, 0, 4)
        .iter()
        .map(|l| (l.index, l.row, l.style))
        .collect();
    assert_eq!(
        got,
        vec![
            (1, 1, LabelStyle::Tagged),
            (3, 2, LabelStyle::Cursor),
            (4, 3, LabelStyle::Plain),
        ]
    );
}

#[test]
fn answers_about_tags() {
    assert!(matches!(set_tag_reply(true, "x", 1), OutPayload::Done));
    assert_eq!(error(set_tag_reply(false, "a\tb", 1)), r#"could not add tag "a\tb" to block 1"#);
    assert!(matches!(remove_tag_reply(true, "x", 1), OutPayload::Done));
    assert_eq!(error(remove_tag_reply(false, "x", 12)), r#"tag "x" not present on block 12"#);
    assert!(matches!(cursor_reply(true, 1), OutPayload::Done));
    assert_eq!(error(cursor_reply(false, 12)), "no block with id 12");
}

#[test]
fn activities_are_told() {
    let a = Activity {
        id: 3,
        actor: "kimi-1".into(),
        agent_name: "Kimi".into(),
        kind: ActivityKind::AgentMessage { to: Some("b".into()), text: "hi".into() },
        kind_name: "agent_message".into(),
        status: "Completed".into(),
        title: "t".into(),
    };
    let info = activity_to_info(&a);
    assert_eq!((info.status.as_str(), info.kind.as_str()), ("completed", "agent_message"));
    assert_eq!((info.to.as_deref(), info.text.as_deref()), (Some("b"), Some("hi")));
    let tool = Activity { kind: ActivityKind::ToolCall { tool: "x".into() }, ..a };
    match activities_reply(&vec![tool]) {
        OutPayload::Activities { activities } => {
            assert_eq!((activities[0].id, activities[0].to.clone()), (3, None));
            assert_eq!(activities[0].text, None);
        },
        _ => panic!("no activities"),
    }
}

#[test]
fn presences_are_told() {
    let p = || Presence {
        slug: "kimi-1".into(),
        base: "kimi".into(),
        color_name: "red".into(),
        rgb: (1, 2, 3),
        pane: Some(4),
    };
    match room_who_reply(&vec![p()]) {
        OutPayload::RoomWho { actors } => {
            assert_eq!((actors[0].slug.as_str(), actors[0].rgb), ("kimi-1", [1, 2, 3]));
        },
        _ => panic!("nobody"),
    }
    let (reply, e) = joined_reply(&p());
    assert!(e.redraw);
    match reply {
        OutPayload::Joined { actor } => {
            assert_eq!((actor.base.as_str(), actor.color.as_str()), ("kimi", "red"));
            assert_eq!(actor.pane, Some(4));
        },
        _ => panic!("not joined"),
    }
}

#[test]
fn claims_are_told() {
    let c = Claim { path: "/x".into(), slug: "a".into(), claimed_at_ms: 1000 };
    match file_status_reply("/x".into(), Some(&c), 3999) {
        OutPayload::FileStatus { path, held_by, held_seconds_ago } => {
            assert_eq!((path.as_str(), held_by.as_deref()), ("/x", Some("a")));
            assert_eq!(held_seconds_ago, Some(2));
        },
        _ => panic!("no status"),
    }
    match file_status_reply("/x".into(), None, 0) {
        OutPayload::FileStatus { held_by, held_seconds_ago, .. } => {
            assert_eq!((held_by, held_seconds_ago), (None, None));
        },
        _ => panic!("no status"),
    }
    match files_reply(&vec![c], 0) {
        OutPayload::Files { claims } => {
            assert_eq!((claims[0].actor.as_str(), claims[0].seconds_ago), ("a", 0));
        },
        _ => panic!("no claims"),
    }
}

fn settings() -> LiveConfig {
    LiveConfig {
        font_family: "Mono".into(),
        font_size: Scalar(1),
        background: (0, 16, 255),
        show_block_labels: true,
        focus_tint: (1, 2, 3, 4),
        foreground: (255, 255, 255),
        cursor_color: (170, 187, 204, 221),
        selection_color: (0, 0, 0, 128),
        comms_delivery: false,
        padding_left: Scalar(2),
        padding_right: Scalar(3),
        padding_top: Scalar(4),
        padding_bottom: Scalar(5),
        gutter_left: Scalar(6),
        gutter_gap: Scalar(7),
        highlight_pad_x: Scalar(8),
        highlight_pad_y: Scalar(9),
        highlight_offset_y: Scalar(10),
        line_height: Scalar(11),
        tab_min_width: Scalar(12),
        tab_max_width: Scalar(13),
        tab_font_size: Scalar(14),
        tab_bar_height: Scalar(15),
        cursor_blink: true,
        bell_style: BellStyle::Silent,
        scrollback: 10000,
    }
}

#[test]
fn settings_are_told() {
    let c = settings();
    let text = |name: &str| match c.config_current_value(name).unwrap() {
        CurrentValue::Text(s) => s,
        _ => panic!("no text"),
    };
    assert_eq!(text("font_family"), "Mono");
    assert_eq!(text("background"), "#0010ff");
    assert_eq!(text("foreground"), "#ffffff");
    assert_eq!(text("focus_tint"), "#01020304");
    assert_eq!(text("cursor_color"), "#aabbccdd");
    assert_eq!(text("selection_color"), "#00000080");
    assert_eq!(text("bell_style"), "none");
    let numbers = [
        "font_size", "padding_left", "padding_right", "padding_top", "padding_bottom",
        "gutter_left", "gutter_gap", "highlight_pad_x", "highlight_pad_y", "highlight_offset_y",
        "line_height", "tab_min_width", "tab_max_width", "tab_font_size", "tab_bar_height",
    ];
    for (i, name) in numbers.iter().enumerate() {
        match c.config_current_value(name).unwrap() {
            CurrentValue::Number(x) => assert_eq!(x, Scalar(i as u32 + 1)),
            _ => panic!("no number"),
        }
    }
    for (name, want) in [("show_block_labels", true), ("comms_delivery", false), ("cursor_blink", true)] {
        match c.config_current_value(name).unwrap() {
            CurrentValue::Flag(b) => assert_eq!(b, want),
            _ => panic!("no flag"),
        }
    }
    assert!(matches!(c.config_current_value("scrollback"), Some(CurrentValue::Whole(10000))));
    assert!(c.config_current_value("nothing").is_none());
}

#[test]
fn a_module_is_told_of_the_settings() {
    let schema = vec![
        ConfigKey {
            name: "scrollback".into(),
            kind: ConfigKind::Int,
            default: DefaultValue::Whole(5000),
            hot_reload: false,
            doc: "lines kept".into(),
        },
        ConfigKey {
            name: "unheard_of".into(),
            kind: ConfigKind::Text,
            default: DefaultValue::Text("x".into()),
            hot_reload: true,
            doc: String::new(),
        },
    ];
    let mut r = window();
    assert!(r.send_config_to_tab(TabId(0), &schema, &settings()).is_none());
    assert!(r.send_config_to_tab(TabId(7), &schema, &settings()).is_none());
    r.set_tab_kind(PaneId(0), TabContentKind::Module("notes".into()), true);
    let told = r.send_config_to_tab(TabId(0), &schema, &settings()).unwrap();
    assert_eq!(told.len(), 2);
    assert_eq!((told[0].name.as_str(), told[0].kind), ("scrollback", "int"));
    assert_eq!((told[0].doc.as_str(), told[0].hot_reload), ("lines kept", false));
    assert!(matches!(told[0].default, DefaultValue::Whole(5000)));
    assert!(matches!(told[0].current, Some(CurrentValue::Whole(10000))));
    assert!(told[1].current.is_none());
    assert!(matches!(&told[1].default, DefaultValue::Text(s) if s == "x"));
}

#[test]
fn hex_reads_back() {
    for n in 0..=255u8 {
        assert_eq!(hex3((n, 0, n)), format!("#{n:02x}00{n:02x}"));
        assert_eq!(hex4((0, n, 0, n)), format!("#00{n:02x}00{n:02x}"));
        assert_eq!(u8::from_str_radix(&hex3((n, 0, 0))[1..3], 16).unwrap(), n);
    }
    assert_eq!(bell_name(BellStyle::Visual), "visual");
}

#[test]
fn settings_are_checked() {
    let key = |name: &str, kind: ConfigKind| ConfigKey {
        name: name.into(),
        kind,
        default: DefaultValue::Flag(false),
        hot_reload: true,
        doc: String::new(),
    };
    let schema = vec![
        key("f", ConfigKind::Float),
        key("i", ConfigKind::Int),
        key("s", ConfigKind::Text),
        key("b", ConfigKind::Bool),
        key("e", ConfigKind::Enum),
    ];
    let fits = |name: &str, v: &str| apply_config_set(&schema, name, &value(v));
    for (name, v) in [
        ("f", "1"), ("f", "1.5"), ("i", "1"), ("i", "-1"), ("i", "18446744073709551615"),
        ("s", "\"x\""), ("b", "true"), ("e", "\"x\""),
    ] {
        assert_eq!(fits(name, v), Ok(()));
    }
    for (name, v) in [
        ("f", "\"1\""), ("i", "1.5"), ("i", "true"), ("s", "1"), ("b", "0"), ("e", "null"),
    ] {
        assert_eq!(fits(name, v), Err(format!("type mismatch for `{name}`")));
    }
    assert_eq!(fits("x", "1"), Err("unknown key `x`".to_string()));
    let t = ValueType { number: true, whole: false, string: false, boolean: false };
    assert_eq!(check_config_set(&schema, "f", t), Ok(()));
    assert!(check_config_set(&schema, "i", t).is_err());
    let names: Vec<&str> = schema.iter().map(|k| k.kind.name()).collect();
    assert_eq!(names, vec!["float", "int", "string", "bool", "enum"]);
}

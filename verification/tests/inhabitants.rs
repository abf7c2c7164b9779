use terminite::acp::{
    render_acp_body, AcpSession, PermissionOption, PermissionPrompt, ToolCall, ToolCallStatus, Turn,
};
use terminite::agent::{
    allow_read, allow_write, is_printable, read_text_for_agent, AcpEvent, AcpReply, AgentKey,
};
use terminite::animation::Frame;
use terminite::kinds::{GraphicsAction, Launch, Written, SCROLL_END};
use terminite::messages::{
    Decoded, ModuleAct, ModuleMessage, SetText, MAX_MODULE_BODY_BYTES,
};
use terminite::renderer::{BellStyle, Renderer, Settings};
use terminite::tab::{
    bound_grid, find_module, non_shell_body, ModuleKind, ModuleManifest, Tab, TabContentKind, TabId,
    TermSlot,
};
use terminite::titles::TITLE_REFRESH;
use terminite::tree::{PaneId, Scalar, SplitDir};

fn module(id: &str, kind: ModuleKind) -> ModuleManifest {
    ModuleManifest {
        id: id.into(),
        name: id.to_uppercase(),
        version: "0.2".into(),
        binary: "/bin/x".into(),
        kind,
    }
}

fn window() -> Renderer {
    let config = Settings {
        bell_style: BellStyle::Visual,
        cursor_blink: true,
        comms_delivery: true,
    };
    let modules = vec![module("notes", ModuleKind::Data), module("vi", ModuleKind::Tty)];
    Renderer::new(80, 24, (800, 600), modules, config, 0, 0)
}

fn tab(r: &Renderer) -> &Tab {
    r.ws.active_tab_ref()
}

/// A window whose only tab hosts an agent that is answering.
fn hosting() -> Renderer {
    let mut r = window();
    r.set_tab_kind(PaneId(0), TabContentKind::Agent("kimi".into()), true);
    let turns = vec![
        Turn::User { text: "hello".into() },
        Turn::Assistant { text: String::new(), tool_calls: Vec::new(), streaming: false },
    ];
    r.ws.active_tab_mut().acp_session =
        Some(AcpSession { turns, awaiting_response: true, ..AcpSession::new() });
    r
}

fn session(r: &Renderer) -> &AcpSession {
    tab(r).acp_session.as_ref().unwrap()
}

fn options() -> Vec<PermissionOption> {
    let option = |id: &str, kind: &str| PermissionOption {
        option_id: id.into(),
        name: format!("name of {id}"),
        kind: kind.into(),
    };
    vec![option("o1", "allow_once"), option("o2", "reject_once"), option("o3", "other")]
}

fn text(body: &str) -> SetText {
    SetText {
        body: body.into(),
        scroll_to_line: None,
        cursor: None,
        gutter: None,
        highlight_line: None,
        language: None,
        highlights: None,
    }
}

/// A window whose only tab shows the data module.
fn noting() -> Renderer {
    let mut r = window();
    r.set_tab_kind(PaneId(0), TabContentKind::Module("notes".into()), true);
    r
}

fn send(r: &mut Renderer, m: SetText) -> bool {
    let (act, e) = r.handle_module_message(TabId(0), ModuleMessage::SetText(m), 0);
    assert!(matches!(act, ModuleAct::Nothing));
    e.redraw
}

#[test]
fn kinds_have_what_they_run() {
    let r = window();
    assert_eq!(r.launch_for(&TabContentKind::Shell), Launch::Nothing);
    assert_eq!(r.launch_for(&TabContentKind::Welcome), Launch::Nothing);
    assert_eq!(r.launch_for(&TabContentKind::Module("notes".into())), Launch::Data);
    assert_eq!(r.launch_for(&TabContentKind::Module("vi".into())), Launch::Tty);
    assert_eq!(r.launch_for(&TabContentKind::Module("gone".into())), Launch::Nothing);
    assert_eq!(r.launch_for(&TabContentKind::Agent("kimi".into())), Launch::Agent);
}

#[test]
fn a_kind_is_switched() {
    let mut r = noting();
    assert!(tab(&r).is_data_module());
    assert!(send(&mut r, text("body")));
    let e = r.set_tab_kind(PaneId(0), TabContentKind::Module("vi".into()), true);
    assert!(e.redraw && e.persist);
    assert!(!tab(&r).is_data_module());
    assert_eq!(tab(&r).active_term(), TermSlot::Module);
    assert_eq!(tab(&r).last_module_body, "");
    let e = r.set_tab_kind(PaneId(7), TabContentKind::Welcome, true);
    assert!(!e.redraw);
    r.set_tab_kind(PaneId(0), TabContentKind::Module("notes".into()), false);
    assert!(tab(&r).module_session.is_none());
    r.set_tab_kind(PaneId(0), TabContentKind::Shell, true);
    assert_eq!(tab(&r).active_term(), TermSlot::Shell);
    assert!(tab(&r).kind.is_shell() && !tab(&r).kind.is_module());
}

#[test]
fn bodies_of_other_kinds() {
    let ms = vec![module("notes", ModuleKind::Data)];
    assert!(non_shell_body(&TabContentKind::Welcome, &ms).starts_with("welcome to terminite"));
    assert_eq!(
        non_shell_body(&TabContentKind::Module("notes".into()), &ms),
        "module: NOTES  (v0.2)\nbinary: /bin/x\nwaiting for the module to send its first frame…"
    );
    assert_eq!(
        non_shell_body(&TabContentKind::Module("x".into()), &ms),
        "module 'x' is no longer registered.\npick a different kind from the dropdown."
    );
    assert_eq!(non_shell_body(&TabContentKind::Shell, &ms), "");
    assert_eq!(non_shell_body(&TabContentKind::Agent("kimi".into()), &ms), "");
    assert_eq!(find_module(&ms, "notes").unwrap().copy(), ms[0]);
    assert!(find_module(&ms, "x").is_none());
    assert_eq!(TabContentKind::Agent("kimi".into()).copy().key(), "kimi");
    assert_eq!(TabContentKind::Welcome.key(), "welcome");
}

#[test]
fn keys_go_to_the_inhabitant() {
    let mut r = window();
    assert!(matches!(r.write_active(b"ls".to_vec()).0, Written::Shell(b) if b == b"ls".to_vec()));
    r.set_tab_kind(PaneId(0), TabContentKind::Module("vi".into()), true);
    assert!(matches!(r.write_active(b"j".to_vec()).0, Written::Module(_)));
    r.set_tab_kind(PaneId(0), TabContentKind::Module("notes".into()), true);
    assert!(matches!(r.write_active(b"j".to_vec()).0, Written::Session(_)));
    r.set_tab_kind(PaneId(0), TabContentKind::Module("notes".into()), false);
    assert!(matches!(r.write_active(b"j".to_vec()).0, Written::Nothing));
    // An agent that could not be started leaves the keys to the shell.
    r.set_tab_kind(PaneId(0), TabContentKind::Agent("kimi".into()), false);
    assert!(matches!(r.write_active(b"j".to_vec()).0, Written::Shell(_)));
}

#[test]
fn a_draft_is_typed() {
    let mut r = hosting();
    let (w, e) = r.write_active("hé".as_bytes().to_vec());
    assert!(matches!(w, Written::Agent(AgentKey::Draft)) && e.redraw);
    assert_eq!(session(&r).draft, "hé");
    r.write_active(b"\x7f".to_vec());
    assert_eq!(session(&r).draft, "h");
    // Bytes that are no text, and control codes, change nothing.
    let (w, e) = r.write_active(vec![0xff]);
    assert!(matches!(w, Written::Agent(AgentKey::Nothing)) && !e.redraw);
    r.write_active(b"\x1b[A".to_vec());
    assert_eq!(session(&r).draft, "h");
    assert!(matches!(r.write_active(b"\x1b".to_vec()).0, Written::Agent(AgentKey::Cancel)));
    assert_eq!(session(&r).draft, "");
    assert!(matches!(r.write_active(b"\x08".to_vec()).0, Written::Agent(AgentKey::Nothing)));
}

#[test]
fn a_prompt_is_sent_and_answered() {
    let mut r = hosting();
    r.write_active(b"hi".to_vec());
    let (w, e) = r.write_active(b"\r".to_vec());
    assert!(matches!(w, Written::Agent(AgentKey::Prompt { text }) if text == "hi") && e.redraw);
    let s = session(&r);
    assert!(s.draft.is_empty() && s.awaiting_response);
    let n = s.turns.len();
    assert!(matches!(&s.turns[n - 2], Turn::User { text } if text == "hi"));
    let id = r.ws.active_tab_ref().id;
    r.handle_acp_event(id, AcpEvent::AgentMessageChunk("hel".into()));
    r.handle_acp_event(id, AcpEvent::AgentMessageChunk("lo".into()));
    match session(&r).turns.last() {
        Some(Turn::Assistant { text, streaming, .. }) => assert!(text == "hello" && *streaming),
        _ => panic!("no reply"),
    }
    // A second Enter does not send the draft again.
    let (w, _) = r.write_active(b"\n".to_vec());
    assert!(matches!(w, Written::Agent(AgentKey::Prompt { text }) if text.is_empty()));
}

#[test]
fn printable_text() {
    assert!(is_printable("a\tb é"));
    assert!(!is_printable(""));
    assert!(!is_printable("a\n"));
    assert!(!is_printable("\u{85}"));
}

#[test]
fn an_answer_is_not_typed() {
    let mut r = hosting();
    let ask = AcpEvent::PermissionRequest {
        request_id: "q1".into(),
        tool_call_title: "write a.rs".into(),
        options: options(),
    };
    assert!(matches!(r.handle_acp_event(TabId(0), ask).0, AcpReply::Nothing));
    assert_eq!(tab(&r).module_scroll_y, Scalar(SCROLL_END));
    // No option of that kind: the key is typed.
    r.write_active(b"A".to_vec());
    assert_eq!(session(&r).draft, "A");
    match r.write_active(b"r".to_vec()).0 {
        Written::Agent(AgentKey::Answer { request_id, option_id }) => {
            assert_eq!((request_id.as_str(), option_id.as_str()), ("q1", "o2"));
        },
        _ => panic!("no answer"),
    }
    assert!(session(&r).pending_permission.is_none());
    assert_eq!(session(&r).draft, "A");
    r.write_active(b"r".to_vec());
    assert_eq!(session(&r).draft, "Ar");
}

#[test]
fn an_agent_is_heard() {
    let mut r = hosting();
    let id = TabId(0);
    let hello = AcpEvent::Initialized { agent_name: "kimi".into(), agent_version: None };
    assert!(matches!(r.handle_acp_event(id, hello).0, AcpReply::NewSession));
    r.handle_acp_event(id, AcpEvent::SessionCreated { session_id: "s".into() });
    assert_eq!(session(&r).session_id.as_deref(), Some("s"));
    r.handle_acp_event(id, AcpEvent::AgentMessageChunk("one ".into()));
    r.handle_acp_event(id, AcpEvent::AgentMessageChunk("two".into()));
    r.handle_acp_event(
        id,
        AcpEvent::ToolCallStarted { id: "t".into(), title: "ls".into(), kind: "run".into() },
    );
    r.handle_acp_event(
        id,
        AcpEvent::ToolCallUpdated {
            id: "t".into(),
            status: ToolCallStatus::Completed,
            output: Some("a\nb".into()),
        },
    );
    // A call that nobody made, the user's own words, and what is only logged.
    r.handle_acp_event(
        id,
        AcpEvent::ToolCallUpdated { id: "u".into(), status: ToolCallStatus::Failed, output: None },
    );
    r.handle_acp_event(id, AcpEvent::UserMessageChunk("x".into()));
    r.handle_acp_event(id, AcpEvent::Stderr("x".into()));
    r.handle_acp_event(id, AcpEvent::ProtocolError("x".into()));
    assert_eq!(
        render_acp_body(session(&r)),
        "─── You ───\nhello\n\n─── Agent (streaming…) ───\none two\n\n  ● [run] ls\n    a\n    b\n\n> _"
    );
    assert!(session(&r).awaiting_response);
    r.handle_acp_event(id, AcpEvent::Shutdown);
    assert!(!session(&r).awaiting_response);
    assert!(render_acp_body(session(&r)).contains("─── Agent ───\n"));
    assert!(session(&r).replying());
}

#[test]
fn an_agent_asks_for_files() {
    let mut r = hosting();
    let read = AcpEvent::FsReadRequest {
        request_id: "1".into(),
        path: "/a".into(),
        line: Some(2),
        limit: None,
    };
    match r.handle_acp_event(TabId(0), read).0 {
        AcpReply::Read { request_id, path, line, limit } => {
            assert_eq!((request_id.as_str(), path.as_str(), line, limit), ("1", "/a", Some(2), None));
        },
        _ => panic!("no read"),
    }
    let write = AcpEvent::FsWriteRequest {
        request_id: "2".into(),
        path: "/b".into(),
        content: "c".into(),
    };
    match r.handle_acp_event(TabId(0), write).0 {
        AcpReply::Write { request_id, path, content } => {
            assert_eq!((request_id.as_str(), path.as_str(), content.as_str()), ("2", "/b", "c"));
        },
        _ => panic!("no write"),
    }
    // A tab without an agent hears nothing.
    let (reply, e) = r.handle_acp_event(TabId(5), AcpEvent::Shutdown);
    assert!(matches!(reply, AcpReply::Nothing) && !e.redraw);
}

#[test]
fn files_are_read_in_part() {
    let t = || "one\ntwo\nthree\n".to_string();
    assert_eq!(read_text_for_agent(t(), None, None), t());
    assert_eq!(read_text_for_agent(t(), Some(2), None), "two\nthree");
    assert_eq!(read_text_for_agent(t(), None, Some(2)), "one\ntwo");
    assert_eq!(read_text_for_agent(t(), Some(2), Some(1)), "two");
    assert_eq!(read_text_for_agent(t(), Some(0), Some(1)), "one");
    assert_eq!(read_text_for_agent(t(), Some(9), None), "");
    assert_eq!(read_text_for_agent(t(), Some(1), Some(0)), "");
}

#[test]
fn files_that_are_too_large_are_refused() {
    assert_eq!(allow_read("/a", 10, 10), Ok(()));
    assert_eq!(
        allow_read("/a", 11, 10),
        Err("/a: 11 bytes > cap 10".to_string())
    );
    assert_eq!(allow_write("/a", 10, 10), Ok(()));
    assert_eq!(
        allow_write("/a", 11, 10),
        Err("/a: write payload 11 bytes > cap 10".to_string())
    );
}

#[test]
fn a_session_shows_its_question() {
    let mut s = AcpSession::new();
    assert_eq!(render_acp_body(&s), "\n\n> _");
    s.pending_permission = Some(PermissionPrompt {
        request_id: "q".into(),
        title: "write".into(),
        options: options(),
    });
    s.draft = "d".into();
    assert_eq!(
        render_acp_body(&s),
        "\n\n─── Permission requested ───\nwrite\n\n  [a] name of o1\n  [r] name of o2\n  [3] name of o3\n\n> d_"
    );
    let call = |status: ToolCallStatus| ToolCall {
        id: "t".into(),
        title: "T".into(),
        kind: "k".into(),
        status,
        output: None,
    };
    s.pending_permission = None;
    s.turns.push(Turn::Assistant {
        text: "x".into(),
        tool_calls: vec![
            call(ToolCallStatus::Pending),
            call(ToolCallStatus::InProgress),
            call(ToolCallStatus::Failed),
        ],
        streaming: false,
    });
    assert_eq!(
        render_acp_body(&s),
        "─── Agent ───\nx\n\n  ○ [k] T\n\n  ◐ [k] T\n\n  ✗ [k] T\n\n> d_"
    );
}

#[test]
fn a_module_shows_text() {
    let mut r = noting();
    r.ws.active_tab_mut().content_ready = true;
    assert!(send(&mut r, text("one")));
    assert_eq!(tab(&r).last_module_body, "one");
    assert!(!tab(&r).content_ready);
    // The same text again is nothing new.
    r.ws.active_tab_mut().content_ready = true;
    assert!(!send(&mut r, text("one")));
    assert!(tab(&r).content_ready);
    assert!(send(&mut r, SetText { cursor: Some((1, 2)), ..text("one") }));
    assert!(tab(&r).content_ready);
    assert_eq!(tab(&r).module_cursor, Some((1, 2)));
    assert!(send(&mut r, SetText { language: Some("rs".into()), ..text("one") }));
    assert!(!tab(&r).content_ready);
    assert!(send(&mut r, SetText { gutter: Some(vec!["1".into()]), ..text("one") }));
    r.ws.active_tab_mut().gutter_ready = true;
    send(&mut r, SetText { gutter: Some(vec!["1".into()]), ..text("one") });
    assert!(tab(&r).gutter_ready);
    send(&mut r, SetText { gutter: Some(vec!["2".into()]), ..text("one") });
    assert!(!tab(&r).gutter_ready);
}

#[test]
fn a_body_that_is_too_large_is_dropped() {
    let mut r = noting();
    assert!(!send(&mut r, text(&"é".repeat(MAX_MODULE_BODY_BYTES / 2 + 1))));
    assert_eq!(tab(&r).last_module_body, "");
    assert!(send(&mut r, text(&"é".repeat(MAX_MODULE_BODY_BYTES / 2))));
}

#[test]
fn a_new_body_starts_at_its_top() {
    let mut r = noting();
    r.ws.active_tab_mut().module_scroll_y = Scalar(7);
    send(&mut r, SetText { scroll_to_line: Some(3), ..text("one") });
    assert_eq!(tab(&r).module_scroll_y, Scalar(7));
    assert_eq!(tab(&r).pending_ensure_visible, Some(3));
    send(&mut r, text("two"));
    assert_eq!(tab(&r).module_scroll_y, Scalar(0));
}

#[test]
fn text_and_image_exclude_each_other() {
    let mut r = noting();
    send(&mut r, text("one"));
    let show = |r: &mut Renderer, image: Option<Decoded>| {
        r.handle_module_message(TabId(0), ModuleMessage::SetImage(image), 5).1.redraw
    };
    assert!(show(&mut r, Some(Decoded::Still(9))));
    assert_eq!((tab(&r).image, tab(&r).last_module_body.as_str()), (Some(9), ""));
    send(&mut r, text("two"));
    assert_eq!((tab(&r).image, tab(&r).last_module_body.as_str()), (None, "two"));
    let frames = vec![
        Frame { texture: 1, width: 4, height: 9, delay: 10 },
        Frame { texture: 2, width: 8, height: 3, delay: 5 },
    ];
    assert!(show(&mut r, Some(Decoded::Animated { frames, total_ms: 15 })));
    let a = tab(&r).animation.as_ref().unwrap();
    assert_eq!((a.width, a.height, a.started_at), (8, 9, 5));
    assert_eq!(a.cumulative, vec![10, 15]);
    assert_eq!(a.current_frame(5 + 9_000_000), 1);
    assert_eq!(a.current_frame(5 + 10_000_000), 2);
    assert_eq!(a.current_frame(5 + 15_000_000), 1);
    // One that could not be decoded changes nothing.
    assert!(!show(&mut r, None));
    assert!(tab(&r).animation.is_some());
}

#[test]
fn modules_ask_and_tell() {
    let mut r = noting();
    r.split_active(SplitDir::Vertical, Scalar(0x3f000000));
    r.set_tab_kind(PaneId(1), TabContentKind::Module("notes".into()), true);
    r.new_tab(80, 24);
    let (act, _) = r.handle_module_message(TabId(0), ModuleMessage::ConfigRequest, 0);
    assert!(matches!(act, ModuleAct::SendConfig));
    let value: serde_json::Value = serde_json::from_str("3").unwrap();
    let set = ModuleMessage::ConfigSet { name: "font".into(), value: value.clone() };
    match r.handle_module_message(TabId(0), set, 0).0 {
        ModuleAct::SetConfig { name, value: v } => assert_eq!((name.as_str(), v), ("font", value)),
        _ => panic!("nothing set"),
    }
    let log = ModuleMessage::Log("x".into());
    assert!(matches!(r.handle_module_message(TabId(0), log, 0).0, ModuleAct::Nothing));
    let focus = ModuleMessage::PublishFocus("/a.rs".into());
    match r.handle_module_message(TabId(0), focus, 0).0 {
        ModuleAct::Focus { path, to } => {
            assert_eq!((path.as_str(), to), ("/a.rs", vec![TabId(1)]));
        },
        _ => panic!("nobody told"),
    }
    let t = r.ws.root_ref().find_tab(TabId(1)).unwrap();
    assert_eq!(t.last_focused_path.as_deref(), Some("/a.rs"));
    assert!(r.ws.root_ref().find_tab(TabId(0)).unwrap().last_focused_path.is_none());
    assert_eq!(r.handle_cwd_changed().0, vec![TabId(0), TabId(1)]);
}

#[test]
fn graphics_are_shown() {
    let mut r = window();
    assert!(!r.handle_apc(TabId(0), GraphicsAction::Transmit, Some(3)).redraw);
    assert!(!r.handle_apc(TabId(0), GraphicsAction::TransmitDisplay, None).redraw);
    assert_eq!(tab(&r).image, None);
    assert!(r.handle_apc(TabId(0), GraphicsAction::TransmitDisplay, Some(3)).redraw);
    assert_eq!(tab(&r).image, Some(3));
    for action in [GraphicsAction::Display, GraphicsAction::Delete, GraphicsAction::Query] {
        assert!(!r.handle_apc(TabId(0), action, Some(4)).redraw);
    }
    assert_eq!(tab(&r).image, Some(3));
}

#[test]
fn a_title_from_the_shell_wins() {
    let mut r = window();
    assert!(!r.titles_due(TITLE_REFRESH - 1));
    assert!(r.titles_due(TITLE_REFRESH));
    let e = r.refresh_auto_titles(TITLE_REFRESH, &vec!["src".into()]);
    assert!(e.retitle);
    assert_eq!(tab(&r).title, "src");
    assert!(!r.titles_due(TITLE_REFRESH + 1));
    let e = r.set_tab_title(TabId(0), "vim".into());
    assert!(e.retitle);
    assert_eq!(tab(&r).title, "vim");
    r.refresh_auto_titles(2 * TITLE_REFRESH, &vec!["lib".into()]);
    assert_eq!(tab(&r).title, "vim");
    // A blank one yields again.
    assert!(r.set_tab_title(TabId(0), " \t".into()).redraw);
    assert_eq!(tab(&r).title, "vim");
    r.refresh_auto_titles(3 * TITLE_REFRESH, &vec!["lib".into()]);
    assert_eq!(tab(&r).title, "lib");
    let e = r.refresh_auto_titles(4 * TITLE_REFRESH, &vec!["lib".into()]);
    assert!(!e.redraw && !e.retitle);
    r.set_tab_title(TabId(9), "nobody".into());
    assert_eq!(tab(&r).title, "lib");
}

#[test]
fn kinds_have_labels() {
    let mut r = window();
    let labels = r.kind_labels(&vec!["kimi".to_string()]);
    let want: Vec<(String, String)> = vec![
        ("shell".into(), "Shell ▾".into()),
        ("welcome".into(), "Welcome ▾".into()),
        ("notes".into(), "NOTES ▾".into()),
        ("vi".into(), "VI ▾".into()),
        ("kimi".into(), "kimi ▾".into()),
    ];
    assert_eq!(labels, want);
    r.set_tab_kind(PaneId(0), TabContentKind::Module("notes".into()), true);
    assert!(r.reload_modules(Vec::new()).redraw);
    assert!(r.modules.is_empty());
    assert!(r.handle_modules_changed(vec![module("new", ModuleKind::Tty)]).redraw);
    assert_eq!(r.modules[0].id, "new");
}

#[test]
fn panes_are_laid_out() {
    let mut r = window();
    r.split_active(SplitDir::Vertical, Scalar(0x3f000000));
    assert_eq!(r.relayout(&vec![(40, 24), (39, 24)]), vec![TabId(0), TabId(1)]);
    assert_eq!((r.ws.grid_cols, r.ws.grid_rows), (39, 24));
    // It has settled.
    assert!(r.relayout(&vec![(40, 24), (39, 24)]).is_empty());
    assert_eq!(r.relayout(&vec![(40, 24), (39, 23)]), vec![TabId(1)]);
}

#[test]
fn grids_have_ceilings() {
    let mut r = window();
    assert_eq!(r.relayout(&vec![(100_000, 24)]), vec![TabId(0)]);
    assert_eq!((r.ws.grid_cols, r.ws.grid_rows), (600, 24));
    r.relayout(&vec![(80, 100_000)]);
    assert_eq!((r.ws.grid_cols, r.ws.grid_rows), (80, 400));
    r.new_tab(usize::MAX, usize::MAX);
    assert_eq!((tab(&r).cols, tab(&r).rows), (600, 400));
    assert_eq!(bound_grid((600, 401)), (600, 400));
}

#[test]
fn grids_have_a_cell() {
    let mut r = window();
    r.new_tab(0, 24);
    assert_eq!((tab(&r).cols, tab(&r).rows), (1, 24));
    assert_eq!((r.ws.grid_cols, r.ws.grid_rows), (1, 24));
    r.relayout(&vec![(80, 0)]);
    assert_eq!((tab(&r).cols, tab(&r).rows), (80, 1));
    let config =
        Settings { bell_style: BellStyle::Visual, cursor_blink: true, comms_delivery: true };
    let r = Renderer::new(0, 0, (800, 600), Vec::new(), config, 0, 0);
    assert_eq!((tab(&r).cols, tab(&r).rows), (1, 1));
    assert_eq!((r.ws.grid_cols, r.ws.grid_rows), (1, 1));
    assert_eq!(bound_grid((0, 0)), (1, 1));
    assert_eq!(bound_grid((1, 1)), (1, 1));
}

#[test]
fn panes_have_their_scale() {
    let mut r = window();
    let one = Scalar(0x3f800000);
    let big = Scalar(0x3fc00000);
    assert_eq!(r.scale_for_tab(TabId(0)), one);
    assert!(!r.apply_pane_scale(PaneId(0), big, false).redraw);
    r.ws.active_tab_mut().buffer_dirty = false;
    let e = r.apply_pane_scale(PaneId(0), big, true);
    assert!(e.relayout && e.redraw);
    assert_eq!(r.scale_for_tab(TabId(0)), big);
    assert!(tab(&r).buffer_dirty);
    assert_eq!(r.scale_for_tab(TabId(9)), one);
    assert!(!r.apply_pane_scale(PaneId(9), one, true).redraw);
}

#[test]
fn a_new_layout_reshapes() {
    let mut r = window();
    r.ws.active_tab_mut().buffer_dirty = false;
    assert!(!r.apply_live_layout(false, false).redraw);
    assert!(r.apply_live_layout(false, true).relayout);
    assert!(!tab(&r).buffer_dirty);
    assert!(r.apply_live_layout(true, false).relayout);
    assert!(tab(&r).buffer_dirty);
}

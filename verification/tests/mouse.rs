use terminite::encode::{
    button_code, encode_mouse_report, focus_report, paste_bytes, push_dec, strip_paste_end,
    wheel_arrows, ModeFlags, Modifiers, MouseButton, MouseEvent, WHEEL_STEPS,
};
use terminite::input::{PointerMove, AUTOSCROLL_TICK, MULTI_CLICK_WINDOW};
use terminite::keys::{TermScroll, BELL_DURATION};
use terminite::mouse::{GestureOutcome, Lift, Press};
use terminite::overlays::Picked;
use terminite::press::{BarHit, BarPart, ContentHit, Pressed};
use terminite::renderer::{
    BellStyle, CursorIcon, DividerDrag, ModalAction, Renderer, Settings, SliderKind,
};
use terminite::selection::{selection_rows, Selection};
use terminite::tab::{ModuleKind, ModuleManifest, TabContentKind, TabId, TermSlot};
use terminite::tree::{PaneId, Scalar, SplitDir};
use terminite::wheel::{Scrolled, Turn, Wheel, Wheeled};

fn window() -> Renderer {
    let config = Settings {
        bell_style: BellStyle::Visual,
        cursor_blink: true,
        comms_delivery: true,
    };
    Renderer::new(80, 24, (800, 600), Vec::new(), config, 0, 0)
}

fn no_mods() -> Modifiers {
    Modifiers { shift: false, alt: false, control: false, command: false }
}

fn plain() -> ModeFlags {
    ModeFlags {
        mouse_report_click: false,
        mouse_drag: false,
        mouse_motion: false,
        sgr_mouse: false,
        alt_screen: false,
        app_cursor: false,
        bracketed_paste: false,
        focus_in_out: false,
    }
}

fn sgr() -> ModeFlags {
    ModeFlags { mouse_report_click: true, sgr_mouse: true, ..plain() }
}

fn at(line: i32, col: usize) -> ContentHit {
    ContentHit {
        pane: Some(PaneId(0)),
        module_cell: None,
        mode: plain(),
        report_cell: Some((col as u32 + 1, line as u32 + 1)),
        at: (line, col),
        link: None,
        block: None,
        word: ((line, 2), (line, 6)),
        line: ((line, 0), (line, 79)),
        scale_pct: 100,
    }
}

fn press(content: ContentHit, now: u64) -> Press {
    Press {
        button: MouseButton::Left,
        modifiers: no_mods(),
        on_confirm: false,
        on_cancel: false,
        menu_hit: None,
        slider: None,
        on_reset: false,
        divider: None,
        handle: None,
        bar: None,
        content,
        now,
    }
}

fn on_bar(pane: u64, part: BarPart) -> Press {
    let hit = BarHit {
        pane: PaneId(pane),
        part,
        x: Scalar(0),
        y: Scalar(0),
        has_folder: true,
        busy: false,
        proc_name: None,
    };
    Press { bar: Some(hit), ..press(at(0, 0), 0) }
}

fn lift<'a>() -> Lift<'a> {
    Lift {
        button: MouseButton::Left,
        modifiers: no_mods(),
        gesture: None,
        ratio: Scalar(0x3f000000),
        over: None,
        busy: None,
        mode: plain(),
        report_cell: Some((1, 1)),
    }
}

fn to(line: i32, col: usize) -> PointerMove {
    PointerMove {
        pos: (Scalar(1), Scalar(2)),
        menu_hit: None,
        ratio: Scalar(0x3e800000),
        over_handle: false,
        over_divider: None,
        mode: plain(),
        modifiers: no_mods(),
        report_cell: Some((col as u32 + 1, line as u32 + 1)),
        at: (line, col),
        big_motion: true,
        edge: None,
        now: 10,
    }
}

fn wheel(turn: Turn) -> Wheel {
    Wheel {
        turn,
        modifiers: no_mods(),
        pane: Some(PaneId(0)),
        lines: 2,
        mode: plain(),
        report_cell: Some((3, 4)),
        offset: 5,
        history: 10,
        residual: Turn::Still,
    }
}

fn written(p: Pressed) -> String {
    match p {
        Pressed::Write(b) => String::from_utf8(b).unwrap(),
        _ => panic!("nothing was written"),
    }
}

fn selection(r: &Renderer) -> Option<Selection> {
    r.ws.active_tab_ref().selection
}

#[test]
fn reports_in_both_formats() {
    let press = MouseEvent::Press(MouseButton::Left);
    let release = MouseEvent::Release(MouseButton::Middle);
    assert_eq!(encode_mouse_report(&plain(), press, no_mods(), 1, 1), None);
    assert_eq!(
        encode_mouse_report(&sgr(), press, no_mods(), 12, 345).unwrap(),
        b"\x1b[<0;12;345M".to_vec()
    );
    assert_eq!(
        encode_mouse_report(&sgr(), release, no_mods(), 1, 2).unwrap(),
        b"\x1b[<1;1;2m".to_vec()
    );
    let all = Modifiers { shift: true, alt: true, control: true, command: true };
    assert_eq!(
        encode_mouse_report(&sgr(), MouseEvent::WheelDown, all, 1, 2).unwrap(),
        b"\x1b[<93;1;2M".to_vec()
    );
    let old = ModeFlags { sgr_mouse: false, ..sgr() };
    assert_eq!(
        encode_mouse_report(&old, press, no_mods(), 1, 300).unwrap(),
        vec![0x1b, b'[', b'M', 32, 33, 255]
    );
    assert_eq!(
        encode_mouse_report(&old, release, no_mods(), 222, 223).unwrap(),
        vec![0x1b, b'[', b'M', 35, 254, 255]
    );
    assert_eq!(
        encode_mouse_report(&sgr(), MouseEvent::Press(MouseButton::Other), no_mods(), 1, 1),
        None
    );
    assert_eq!(button_code(MouseButton::Right), Some(2));
    assert_eq!(
        encode_mouse_report(&sgr(), MouseEvent::Motion, no_mods(), 1, 1).unwrap(),
        b"\x1b[<32;1;1M".to_vec()
    );
    assert_eq!(
        encode_mouse_report(&sgr(), MouseEvent::WheelUp, no_mods(), 1, 1).unwrap(),
        b"\x1b[<64;1;1M".to_vec()
    );
}

#[test]
fn decimal_reads_back() {
    for n in [0u64, 9, 10, 65535, u64::MAX] {
        let mut v = vec![b'x'];
        push_dec(&mut v, n);
        let s = String::from_utf8(v).unwrap();
        assert_eq!(s[1..].parse::<u64>().unwrap(), n);
    }
}

#[test]
fn wheel_lines_become_arrows() {
    assert_eq!(wheel_arrows(true, false, 2).unwrap(), b"\x1b[A\x1b[A".to_vec());
    assert_eq!(wheel_arrows(false, true, 1).unwrap(), b"\x1bOB".to_vec());
    assert_eq!(wheel_arrows(true, true, 0), None);
    assert_eq!(wheel_arrows(true, true, 5000).unwrap().len(), 3 * WHEEL_STEPS);
}

#[test]
fn pastes_are_framed() {
    assert_eq!(paste_bytes("hé", false), "hé".as_bytes().to_vec());
    assert_eq!(paste_bytes("hé", true), "\x1b[200~hé\x1b[201~".as_bytes().to_vec());
    // The end mark is taken out of the text.
    assert_eq!(strip_paste_end("a\x1b[201~b\x1b[201~"), "ab");
    assert_eq!(strip_paste_end("a\x1b[200~b"), "a\x1b[200~b");
    assert_eq!(paste_bytes("a\x1b[201~b", true), b"\x1b[200~ab\x1b[201~".to_vec());
    // A mark that is split by another one goes too.
    assert_eq!(strip_paste_end("\x1b[2\x1b[201~01~"), "");
    assert_eq!(strip_paste_end("a\x1b[20\x1b[201~1~b"), "ab");
    assert_eq!(strip_paste_end("\x1b[20\x1b[2\x1b[201~01~1~"), "");
    assert_eq!(
        paste_bytes("\x1b[20\x1b[201~1~", true),
        b"\x1b[200~\x1b[201~".to_vec()
    );
    assert_eq!(strip_paste_end("\x1b[201"), "\x1b[201");
}

#[test]
fn focus_is_reported_where_asked() {
    assert_eq!(focus_report(true), b"\x1b[I".to_vec());
    assert_eq!(focus_report(false), b"\x1b[O".to_vec());
    let mut r = window();
    let (b, e) = r.focus_changed(false, plain());
    assert!(b.is_none() && !e.reload_config && e.redraw && !r.focused);
    let (b, e) = r.focus_changed(true, ModeFlags { focus_in_out: true, ..plain() });
    assert_eq!(b.unwrap(), b"\x1b[I".to_vec());
    assert!(e.reload_config && r.focused);
}

#[test]
fn selections_span_rows() {
    let mut s = Selection::from_anchor(3, 10);
    assert!(s.is_empty());
    s.extend_to(1, 5);
    assert_eq!(s.normalized(), ((1, 5), (3, 10)));
    let rows: Vec<(i32, usize, usize)> =
        selection_rows(&s, 0, 80, 24).iter().map(|r| (r.row, r.start, r.end)).collect();
    assert_eq!(rows, vec![(1, 5, 80), (2, 0, 80), (3, 0, 11)]);
    // Scrolled back by two lines.
    let rows: Vec<i32> = selection_rows(&s, 2, 80, 4).iter().map(|r| r.row).collect();
    assert_eq!(rows, vec![3]);
}

#[test]
fn a_click_starts_a_drag() {
    let mut r = window();
    let (p, e) = r.mouse_down(press(at(3, 4), 0));
    assert!(matches!(p, Pressed::Nothing));
    assert!(e.redraw);
    assert!(r.ws.active_tab_ref().dragging);
    let m = r.mouse_moved(to(5, 1));
    assert!(m.effects.redraw);
    assert_eq!(selection(&r).unwrap().normalized(), ((3, 4), (5, 1)));
    let up = r.mouse_up(lift());
    assert!(matches!(up.act, Pressed::Copy((3, 4), (5, 1))));
    assert!(!r.ws.active_tab_ref().dragging);
    assert!(selection(&r).is_some());
}

#[test]
fn a_click_alone_selects_nothing() {
    let mut r = window();
    r.mouse_down(press(at(3, 4), 0));
    let up = r.mouse_up(lift());
    assert!(matches!(up.act, Pressed::Nothing));
    assert!(selection(&r).is_none());
}

#[test]
fn clicks_in_a_row_select_more() {
    let mut r = window();
    r.mouse_down(press(at(3, 4), 0));
    r.mouse_up(lift());
    let (p, _) = r.mouse_down(press(at(3, 4), 1));
    assert!(matches!(p, Pressed::Copy((3, 2), (3, 6))));
    let (p, _) = r.mouse_down(press(at(3, 4), 2));
    assert!(matches!(p, Pressed::Copy((3, 0), (3, 79))));
    // Another place, or too late, starts over.
    r.mouse_down(press(at(3, 5), 3));
    assert!(r.ws.active_tab_ref().dragging);
    r.mouse_up(lift());
    r.mouse_down(press(at(3, 5), 3 + MULTI_CLICK_WINDOW));
    assert!(r.ws.active_tab_ref().dragging);
}

#[test]
fn a_command_click_opens_a_link() {
    let mut r = window();
    let command = Modifiers { command: true, ..no_mods() };
    let hit = ContentHit { link: Some("https://x".into()), ..at(0, 0) };
    let (p, _) = r.mouse_down(Press { modifiers: command, ..press(hit, 0) });
    match p {
        Pressed::OpenUri(uri) => assert_eq!(uri, "https://x"),
        _ => panic!("no link"),
    }
    // Without a link, the block under the pointer is selected and copied.
    let hit = ContentHit { block: Some(((2, 0), (4, 79))), ..at(3, 3) };
    let (p, _) = r.mouse_down(Press { modifiers: command, ..press(hit, 0) });
    assert!(matches!(p, Pressed::Copy((2, 0), (4, 79))));
    assert_eq!(selection(&r).unwrap().normalized(), ((2, 0), (4, 79)));
}

#[test]
fn an_application_hears_of_the_mouse() {
    let mut r = window();
    let hit = ContentHit { mode: sgr(), ..at(1, 2) };
    assert_eq!(written(r.mouse_down(press(hit, 0)).0), "\x1b[<0;3;2M");
    let up = r.mouse_up(Lift { mode: sgr(), report_cell: Some((5, 6)), ..lift() });
    assert_eq!(written(up.act), "\x1b[<0;5;6m");
    let motion = ModeFlags { mouse_motion: true, ..sgr() };
    let m = r.mouse_moved(PointerMove { mode: motion, ..to(0, 0) });
    assert_eq!(m.write.unwrap(), b"\x1b[<32;1;1M".to_vec());
    // Drags alone: not while nothing is dragged.
    let drag = ModeFlags { mouse_drag: true, ..sgr() };
    assert!(r.mouse_moved(PointerMove { mode: drag, ..to(0, 0) }).write.is_none());
    // Outside of the cells there is nothing to report.
    let hit = ContentHit { mode: sgr(), report_cell: None, ..at(1, 2) };
    assert!(matches!(r.mouse_down(press(hit, 0)).0, Pressed::Nothing));
}

#[test]
fn a_right_click_opens_the_menu() {
    let mut r = window();
    r.mouse_moved(to(0, 0));
    r.mouse_down(Press { button: MouseButton::Right, ..press(at(0, 0), 0) });
    {
        let m = r.context_menu.as_ref().unwrap();
        assert_eq!((m.x, m.y), (Scalar(1), Scalar(2)));
        assert_eq!(m.items.len(), 6);
    }
    let m = r.mouse_moved(PointerMove { menu_hit: Some(2), ..to(0, 0) });
    assert!(m.effects.redraw);
    assert_eq!(r.context_menu.as_ref().unwrap().hovered, Some(2));
    let again = r.mouse_moved(PointerMove { menu_hit: Some(2), ..to(0, 0) });
    assert!(!again.effects.redraw);
    let (p, _) = r.mouse_down(Press { menu_hit: Some(1), ..press(at(0, 0), 0) });
    assert!(matches!(p, Pressed::Menu(Picked::Paste)));
}

#[test]
fn a_modal_keeps_presses_out() {
    let mut r = window();
    r.open_modal(ModalAction::CrashNotice, "t".into(), "b".into(), "no", "yes");
    let (p, e) = r.mouse_down(press(at(3, 4), 0));
    assert!(matches!(p, Pressed::Nothing) && !e.redraw);
    assert!(selection(&r).is_none());
    let right = Press { button: MouseButton::Right, on_cancel: true, ..press(at(0, 0), 0) };
    r.mouse_down(right);
    assert!(r.has_modal());
    let (p, _) = r.mouse_down(Press { on_confirm: true, ..press(at(0, 0), 0) });
    assert!(matches!(p, Pressed::Exit));
}

#[test]
fn the_tab_bar_is_clicked() {
    let mut r = window();
    // The last tab of the window stays.
    r.mouse_down(on_bar(0, BarPart::Close(0)));
    assert_eq!(r.ws.root_ref().leaf_count(), 1);
    r.new_tab(80, 24);
    r.mouse_down(on_bar(0, BarPart::Tab(0)));
    assert_eq!(r.ws.active_tab_ref().id, TabId(0));
    r.mouse_down(on_bar(0, BarPart::Close(1)));
    assert_eq!(r.ws.active_pane_ref().tabs.len(), 1);
    r.split_active(SplitDir::Vertical, Scalar(0x3f000000));
    let (_, e) = r.mouse_down(on_bar(0, BarPart::Blank));
    assert!(e.reload_config);
    assert_eq!(r.ws.active_pane, PaneId(0));
    r.mouse_down(on_bar(1, BarPart::KindSelector));
    assert_eq!(r.ws.active_pane, PaneId(1));
    assert_eq!(r.context_menu.as_ref().unwrap().items.len(), 3);
}

#[test]
fn a_busy_tab_is_not_closed_by_a_click() {
    let mut r = window();
    r.new_tab(80, 24);
    let hit = BarHit {
        pane: PaneId(0),
        part: BarPart::Close(0),
        x: Scalar(0),
        y: Scalar(0),
        has_folder: false,
        busy: true,
        proc_name: Some("top".into()),
    };
    r.tab_bar_click(&hit);
    assert_eq!(r.modal.as_ref().unwrap().body, "top is running in this tab.");
    assert_eq!(r.ws.active_pane_ref().tabs.len(), 2);
    assert_eq!(r.ws.active_tab_ref().id, TabId(0));
}

#[test]
fn a_module_hears_of_clicks() {
    let mut r = window();
    r.modules = vec![ModuleManifest {
        id: "m".into(),
        name: "M".into(),
        version: "1".into(),
        binary: "m".into(),
        kind: ModuleKind::Data,
    }];
    r.set_tab_kind(PaneId(0), TabContentKind::Module("m".into()), true);
    let hit = ContentHit { module_cell: Some((7, 8)), ..at(0, 0) };
    let (p, _) = r.mouse_down(press(hit, 0));
    assert!(matches!(p, Pressed::ModuleClick { line: 7, col: 8, count: 1 }));
    assert_eq!(r.module_click(7, 8, 1), Some(2));
    assert_eq!(r.module_click(7, 8, 2), Some(3));
    assert_eq!(r.module_click(7, 8, 3), Some(3));
    assert_eq!(r.module_click(7, 9, 4), Some(1));
}

#[test]
fn a_divider_follows_the_pointer() {
    let mut r = window();
    r.split_active(SplitDir::Vertical, Scalar(0x3f000000));
    let drag = DividerDrag {
        path: Vec::new(),
        outer: (Scalar(0), Scalar(0), Scalar(0), Scalar(0)),
        dir: SplitDir::Vertical,
    };
    r.mouse_down(Press { divider: Some(drag), ..press(at(0, 0), 0) });
    let m = r.mouse_moved(to(0, 0));
    assert!(m.effects.relayout && m.effects.redraw);
    assert_eq!(r.ws.root_ref().leaf_count(), 2);
    match r.ws.root_ref() {
        terminite::tree::PaneNode::Split { ratio, .. } => assert_eq!(*ratio, Scalar(0x3e800000)),
        _ => panic!("no split"),
    }
    let up = r.mouse_up(lift());
    assert!(!up.effects.redraw && r.divider_drag.is_none());
}

#[test]
fn a_corner_drag_splits() {
    let mut r = window();
    r.mouse_down(Press { handle: Some(PaneId(0)), ..press(at(0, 0), 0) });
    let m = r.mouse_moved(to(0, 0));
    assert_eq!(m.cursor, Some(CursorIcon::Grabbing));
    assert_eq!(r.mouse_moved(to(0, 0)).cursor, None);
    let split = Some(GestureOutcome::Split(SplitDir::Horizontal));
    let up = r.mouse_up(Lift { gesture: split, ..lift() });
    assert_eq!(up.opened, Some(TabId(1)));
    assert!(up.reset_cursor && up.effects.relayout);
    assert_eq!(r.ws.root_ref().leaf_count(), 2);
}

#[test]
fn a_corner_drag_removes_another_pane() {
    let mut r = window();
    r.split_active(SplitDir::Vertical, Scalar(0x3f000000));
    let start = Press { handle: Some(PaneId(1)), ..press(at(0, 0), 0) };
    let remove = Some(GestureOutcome::Remove);
    r.mouse_down(start);
    // Let go over its own pane: nothing happens.
    r.mouse_up(Lift { gesture: remove, over: Some(PaneId(1)), ..lift() });
    assert_eq!(r.ws.root_ref().leaf_count(), 2);
    r.mouse_down(Press { handle: Some(PaneId(1)), ..press(at(0, 0), 0) });
    r.mouse_up(Lift { gesture: remove, over: Some(PaneId(0)), ..lift() });
    assert_eq!(r.ws.root_ref().leaf_count(), 1);
    assert_eq!(r.ws.active_pane, PaneId(1));
}

#[test]
fn a_slider_is_dragged() {
    let mut r = window();
    r.open_display_settings();
    let (p, _) = r.mouse_down(Press { slider: Some(SliderKind::Tab), ..press(at(0, 0), 0) });
    assert!(matches!(p, Pressed::Slider(SliderKind::Tab)));
    assert_eq!(r.mouse_moved(to(0, 0)).slider, Some(SliderKind::Tab));
    let up = r.mouse_up(lift());
    assert!(up.effects.persist);
    assert!(r.slider_drag.is_none());
    let (p, _) = r.mouse_down(Press { on_reset: true, ..press(at(0, 0), 0) });
    assert!(matches!(p, Pressed::ResetSizes));
}

#[test]
fn the_cursor_shows_what_is_under_it() {
    let mut r = window();
    let m = r.mouse_moved(PointerMove { over_divider: Some(SplitDir::Vertical), ..to(0, 0) });
    assert_eq!(m.cursor, Some(CursorIcon::ColResize));
    let m = r.mouse_moved(PointerMove { over_divider: Some(SplitDir::Horizontal), ..to(0, 0) });
    assert_eq!(m.cursor, Some(CursorIcon::RowResize));
    let m = r.mouse_moved(PointerMove { over_handle: true, ..to(0, 0) });
    assert_eq!(m.cursor, Some(CursorIcon::Grab));
    assert_eq!(r.mouse_moved(to(0, 0)).cursor, Some(CursorIcon::Default));
    assert_eq!(r.mouse_moved(to(0, 0)).cursor, None);
}

#[test]
fn a_drag_past_the_edge_scrolls() {
    let mut r = window();
    r.mouse_down(press(at(3, 4), 0));
    r.mouse_moved(PointerMove { edge: Some(1), ..to(0, 0) });
    assert_eq!(r.ws.active_tab_ref().autoscroll_dir, Some(1));
    assert_eq!(r.next_autoscroll_deadline, Some(10 + AUTOSCROLL_TICK));
    // The tick moves the terminal, and the head of the selection with it.
    r.mouse_up(lift());
    assert_eq!(r.ws.active_tab_ref().autoscroll_dir, None);
    assert_eq!(r.next_autoscroll_deadline, None);
}

#[test]
fn the_wheel_goes_where_it_should() {
    let mut r = window();
    assert!(matches!(r.mouse_wheel(wheel(Turn::Up)).0, Wheeled::Scroll));
    let command = Modifiers { command: true, ..no_mods() };
    assert!(matches!(
        r.mouse_wheel(Wheel { modifiers: command, ..wheel(Turn::Up) }).0,
        Wheeled::Zoom
    ));
    assert!(matches!(
        r.mouse_wheel(Wheel { modifiers: command, ..wheel(Turn::Still) }).0,
        Wheeled::Nothing
    ));
    assert!(matches!(
        r.mouse_wheel(Wheel { pane: None, ..wheel(Turn::Up) }).0,
        Wheeled::Nothing
    ));
    let own = ModeFlags { alt_screen: true, ..plain() };
    match r.mouse_wheel(Wheel { mode: own, ..wheel(Turn::Down) }).0 {
        Wheeled::Write(b) => assert_eq!(b, b"\x1b[B\x1b[B".to_vec()),
        _ => panic!("no arrows"),
    }
    match r.mouse_wheel(Wheel { mode: sgr(), ..wheel(Turn::Down) }).0 {
        Wheeled::Write(b) => assert_eq!(b, b"\x1b[<65;3;4M".to_vec()),
        _ => panic!("no report"),
    }
    // At either end there is nothing more to see.
    assert!(matches!(
        r.mouse_wheel(Wheel { offset: 10, ..wheel(Turn::Up) }).0,
        Wheeled::Nothing
    ));
    assert!(matches!(
        r.mouse_wheel(Wheel { offset: 0, ..wheel(Turn::Down) }).0,
        Wheeled::Nothing
    ));
    assert!(matches!(
        r.mouse_wheel(Wheel { offset: 0, residual: Turn::Up, ..wheel(Turn::Down) }).0,
        Wheeled::Scroll
    ));
    r.set_tab_kind(PaneId(0), TabContentKind::Module("m".into()), true);
    assert!(matches!(r.mouse_wheel(wheel(Turn::Up)).0, Wheeled::Body));
}

#[test]
fn a_scroll_under_a_drag_extends_it() {
    let mut r = window();
    r.mouse_down(press(at(3, 4), 0));
    let s = Scrolled { pane: PaneId(0), whole: 2, before: 0, after: 2, at: (1, 0) };
    assert_eq!(r.wheel_scrolled(s), (2, false));
    // The uncovered top edge is further from the anchor than the pointer.
    assert_eq!(selection(&r).unwrap().normalized(), ((-2, 0), (3, 4)));
    let s = Scrolled { pane: PaneId(0), whole: 5, before: 2, after: 4, at: (-20, 7) };
    assert_eq!(r.wheel_scrolled(s), (2, true));
    assert_eq!(selection(&r).unwrap().normalized(), ((-20, 7), (3, 4)));
    let s = Scrolled { pane: PaneId(0), whole: -4, before: 4, after: 0, at: (5, 5) };
    assert_eq!(r.wheel_scrolled(s), (-4, false));
    assert_eq!(selection(&r).unwrap().normalized(), ((3, 4), (23, 79)));
}

#[test]
fn keys_scroll_the_terminal() {
    let r = window();
    assert_eq!(r.scroll_page(true).0, TermScroll::PageUp);
    assert_eq!(r.scroll_page(false).0, TermScroll::PageDown);
    assert_eq!(r.scroll_to_edge(true).0, TermScroll::Top);
    assert_eq!(r.scroll_to_edge(false).0, TermScroll::Bottom);
    assert!(r.clear_scrollback().redraw);
}

#[test]
fn everything_is_selected() {
    let mut r = window();
    assert!(matches!(r.copy_selection(), Pressed::Nothing));
    let (p, e) = r.select_all(((-100, 0), (23, 79)));
    assert!(matches!(p, Pressed::Copy((-100, 0), (23, 79))));
    assert!(e.redraw);
    assert!(matches!(r.copy_selection(), Pressed::Copy((-100, 0), (23, 79))));
}

#[test]
fn a_paste_is_typed() {
    let mut r = window();
    assert_eq!(r.paste(None, plain(), 1), None);
    assert_eq!(r.paste(Some(String::new()), plain(), 1), None);
    assert!(r.floor.human.is_empty());
    let mode = ModeFlags { bracketed_paste: true, ..plain() };
    assert_eq!(r.paste(Some("x".into()), mode, 1).unwrap(), b"\x1b[200~x\x1b[201~".to_vec());
    assert_eq!(r.floor.human.get(&0), Some(&1));
}

#[test]
fn composed_text_is_typed() {
    let mut r = window();
    r.ime_preedit("ni".into());
    assert_eq!(r.preedit, "ni");
    let (w, _) = r.ime_commit("你".into(), 3);
    let (term, bytes) = w.unwrap();
    assert_eq!((term, bytes), (TermSlot::Shell, "你".as_bytes().to_vec()));
    assert_eq!(r.preedit, "");
    assert_eq!(r.floor.human.get(&0), Some(&3));
    assert!(r.ime_commit(String::new(), 4).0.is_none());
}

#[test]
fn the_bell_flashes() {
    let mut r = window();
    assert!(r.ring_bell(5).redraw);
    assert_eq!(r.bell_flash_until, Some(5 + BELL_DURATION));
    // A flash that is on show goes on.
    assert!(!r.ring_bell(6).redraw);
    assert_eq!(r.bell_flash_until, Some(6 + BELL_DURATION));
    r.config.bell_style = BellStyle::Silent;
    assert!(!r.ring_bell(u64::MAX / 2).redraw);
    assert_eq!(r.bell_flash_until, Some(6 + BELL_DURATION));
}

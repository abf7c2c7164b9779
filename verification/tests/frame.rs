use terminite::animation::{Frame, TabAnimation};
use terminite::frame::{
    first_row, rss_limit_bytes, OnTop, SurfaceAct, SurfaceStatus, Underline, CURSOR_BLINK_HALF_MS,
    DEFAULT_RSS_LIMIT_GB, GIB,
};
use terminite::input::AUTOSCROLL_TICK;
use terminite::paint::{CursorShape, DecorationKind, DecorationRun, Ink, Mark, Run, Snapshot};
use terminite::renderer::{
    BellStyle, ModalAction, Renderer, Settings, SplitGesture, FRAME_TIMER_CAP,
};
use terminite::room::MS;
use terminite::selection::Selection;
use terminite::tab::{ModuleKind, ModuleManifest, Tab, TabContentKind, TabId};
use terminite::tree::{PaneId, Scalar, SplitDir};

fn module(id: &str, kind: ModuleKind) -> ModuleManifest {
    ModuleManifest {
        id: id.into(),
        name: id.into(),
        version: "1".into(),
        binary: "b".into(),
        kind,
    }
}

fn window() -> Renderer {
    let config = Settings {
        bell_style: BellStyle::Visual,
        cursor_blink: true,
        comms_delivery: true,
    };
    let modules = vec![module("notes", ModuleKind::Data), module("vi", ModuleKind::Tty)];
    Renderer::new(80, 24, (800, 600), modules, config, 10 * GIB, 1000)
}

fn tab(r: &Renderer) -> &Tab {
    r.ws.active_tab_ref()
}

#[test]
fn the_cursor_blinks() {
    let mut r = window();
    let half = CURSOR_BLINK_HALF_MS * MS;
    assert!(r.begin_frame(1000).blink_on);
    assert_eq!(r.next_blink_deadline, Some(1000 + half));
    assert!(r.begin_frame(1000 + half - 1).blink_on);
    // A half of the blink is over, and the other one begins.
    assert!(!r.begin_frame(1000 + half).blink_on);
    assert_eq!(r.next_blink_deadline, Some(1000 + 2 * half));
    assert!(r.begin_frame(1000 + 2 * half).blink_on);
    r.focused = false;
    assert!(r.begin_frame(1000 + half).blink_on);
    assert_eq!(r.next_blink_deadline, None);
    r.focused = true;
    r.config.cursor_blink = false;
    assert!(r.begin_frame(1000 + half).blink_on);
}

#[test]
fn a_flash_ends() {
    let mut r = window();
    r.bell_flash_until = Some(2000);
    r.next_autoscroll_deadline = Some(5);
    assert!(r.begin_frame(1999).flash);
    assert_eq!(r.bell_flash_until, Some(2000));
    assert_eq!(r.next_autoscroll_deadline, None);
    assert!(!r.begin_frame(2000).flash);
    assert_eq!(r.bell_flash_until, None);
}

#[test]
fn timings_are_kept_for_a_while() {
    let mut r = window();
    for i in 0..FRAME_TIMER_CAP as u32 + 3 {
        r.frame_ended(true, Scalar(i));
    }
    assert_eq!(r.frame_samples.len(), FRAME_TIMER_CAP);
    assert_eq!(r.frame_samples[0], Scalar(3));
    assert_eq!(r.frame_count, FRAME_TIMER_CAP as u64 + 3);
    // A frame that did not get on screen leaves no trace.
    r.frame_ended(false, Scalar(9));
    assert_eq!(r.frame_samples[0], Scalar(3));
    assert_eq!(r.frame_count, FRAME_TIMER_CAP as u64 + 3);
    r.frame_count = u64::MAX;
    r.frame_ended(true, Scalar(0));
    assert_eq!(r.frame_count, u64::MAX);
}

#[test]
fn a_failing_surface_is_tried_later_and_later() {
    let mut r = window();
    let waits: Vec<u64> = (0..5)
        .map(|_| {
            assert_eq!(r.surface_answered(SurfaceStatus::Lost, 100, 10, 50), SurfaceAct::Recreate);
            r.next_surface_retry_deadline.unwrap() - 100
        })
        .collect();
    assert_eq!(waits, vec![10, 20, 40, 50, 50]);
    assert_eq!(r.surface_answered(SurfaceStatus::Success, 0, 10, 50), SurfaceAct::Draw);
    assert_eq!(r.surface_retry_count, 5);
    // A frame without a texture does not end the wait, one that is drawn does.
    r.frame_ended(false, Scalar(0));
    assert_eq!((r.surface_retry_count, r.next_surface_retry_deadline), (5, Some(150)));
    r.frame_ended(true, Scalar(0));
    assert_eq!((r.surface_retry_count, r.next_surface_retry_deadline), (0, None));
    assert_eq!(r.surface_answered(SurfaceStatus::Timeout, 7, 10, 50), SurfaceAct::Wait);
    assert_eq!(r.next_surface_retry_deadline, Some(17));
    assert_eq!(r.surface_answered(SurfaceStatus::Occluded, 7, 10, 50), SurfaceAct::Wait);
    assert_eq!(r.surface_answered(SurfaceStatus::Outdated, 7, 10, 50), SurfaceAct::Configure);
    assert_eq!(r.surface_answered(SurfaceStatus::Suboptimal, 7, 10, 50), SurfaceAct::Configure);
    assert_eq!(r.surface_answered(SurfaceStatus::Other, 7, 10, 50), SurfaceAct::Report);
    r.surface_retry_count = u32::MAX;
    r.surface_answered(SurfaceStatus::Lost, 0, 10, 50);
    assert_eq!(r.surface_retry_count, u32::MAX);
}

#[test]
fn tabs_are_drawn_from_terminals_or_text() {
    let mut r = window();
    assert!(tab(&r).draws_terminal(&r.modules));
    r.set_tab_kind(PaneId(0), TabContentKind::Module("vi".into()), true);
    assert!(tab(&r).draws_terminal(&r.modules));
    r.set_tab_kind(PaneId(0), TabContentKind::Module("notes".into()), true);
    assert!(!tab(&r).draws_terminal(&r.modules));
    assert!(tab(&r).body(&r.modules).starts_with("module: notes"));
    r.ws.active_tab_mut().module_session = Some("text".into());
    assert_eq!(tab(&r).body(&r.modules), "text");
    r.set_tab_kind(PaneId(0), TabContentKind::Agent("kimi".into()), true);
    assert!(!tab(&r).draws_terminal(&r.modules));
    assert_eq!(tab(&r).body(&r.modules), "\n\n> _");
    r.set_tab_kind(PaneId(0), TabContentKind::Agent("kimi".into()), false);
    assert_eq!(tab(&r).body(&r.modules), "");
}

#[test]
fn an_image_takes_the_place_of_a_modules_text() {
    let mut r = window();
    r.ws.active_tab_mut().image = Some(3);
    assert!(!tab(&r).hides_text());
    assert_eq!(tab(&r).image_shown(0), Some(3));
    let frames = vec![Frame { texture: 8, width: 1, height: 1, delay: 4 }];
    r.ws.active_tab_mut().animation = Some(TabAnimation::of_frames(&frames, 4, 0));
    assert_eq!(tab(&r).image_shown(0), Some(8));
    r.set_tab_kind(PaneId(0), TabContentKind::Module("notes".into()), true);
    assert!(!tab(&r).hides_text());
    r.ws.active_tab_mut().image = Some(3);
    assert!(tab(&r).hides_text());
}

#[test]
fn animations_go_round() {
    let frame = |texture: u64, delay: u64| Frame { texture, width: 2, height: 2, delay };
    let a = TabAnimation::of_frames(&vec![frame(1, 10), frame(2, 20), frame(3, 30)], 60, 0);
    assert_eq!(a.current_index(0), 0);
    assert_eq!(a.current_index(10 * MS), 1);
    assert_eq!(a.current_index(59 * MS), 2);
    assert_eq!(a.current_index(60 * MS), 0);
    assert_eq!(a.current_frame(75 * MS), 2);
    assert_eq!(a.next_wakeup(75 * MS), Some(90 * MS));
    // The frame holds until then, and the next one is due at once.
    assert_eq!(a.current_frame(90 * MS - 1), 2);
    assert_eq!(a.current_frame(90 * MS), 3);
    let still = TabAnimation::of_frames(&vec![frame(1, 0)], 0, 0);
    assert_eq!(still.next_wakeup(5), None);
    assert_eq!(still.current_index(5), 0);
}

#[test]
fn a_long_line_takes_several_rows() {
    let lines = vec![0, 1, 1, 1, 2];
    assert_eq!(first_row(&lines, 1), Some(1));
    assert_eq!(first_row(&lines, 2), Some(4));
    assert_eq!(first_row(&lines, 3), None);
}

#[test]
fn a_tick_scrolls_on() {
    let mut r = window();
    r.autoscrolled(PaneId(0), 5, 9);
    assert_eq!(r.next_autoscroll_deadline, None);
    {
        let t = r.ws.active_tab_mut();
        t.selection = Some(Selection::from_anchor(3, 3));
        t.autoscroll_dir = Some(1);
    }
    r.autoscrolled(PaneId(0), 5, 9);
    assert_eq!(r.next_autoscroll_deadline, Some(9 + AUTOSCROLL_TICK));
    assert_eq!(tab(&r).selection.unwrap().normalized(), ((-5, 0), (3, 3)));
    r.ws.active_tab_mut().autoscroll_dir = Some(-1);
    r.autoscrolled(PaneId(0), 2, 9);
    assert_eq!(tab(&r).selection.unwrap().normalized(), ((3, 3), (21, 79)));
}

#[test]
fn shaped_text_is_clean() {
    let mut r = window();
    r.ws.active_tab_mut().buffer_dirty = true;
    r.text_shaped(PaneId(0));
    assert!(!tab(&r).buffer_dirty);
    r.ws.active_tab_mut().pending_ensure_visible = Some(4);
    r.body_shaped(PaneId(0), Scalar(6));
    assert!(tab(&r).content_ready);
    assert_eq!((tab(&r).module_scroll_y, tab(&r).pending_ensure_visible), (Scalar(6), None));
}

#[test]
fn tabs_are_marked() {
    let mut r = window();
    r.new_tab(80, 24);
    r.ws.active_tab_mut().color_idx = 4;
    let marks: Vec<(Underline, Option<u8>)> =
        r.tab_marks(PaneId(0)).iter().map(|m| (m.underline, m.band)).collect();
    assert_eq!(marks, vec![(Underline::Plain, None), (Underline::Bright, Some(4))]);
    r.split_active(SplitDir::Vertical, Scalar(0x3f000000));
    assert_eq!(r.tab_marks(PaneId(0))[1].underline, Underline::Dim);
    assert!(!r.grip_active(PaneId(0)));
    r.split_gesture = Some(SplitGesture { pid: PaneId(0), start: (Scalar(0), Scalar(0)) });
    assert!(r.grip_active(PaneId(0)) && !r.grip_active(PaneId(1)));
}

#[test]
fn what_is_on_top() {
    let mut r = window();
    assert_eq!(r.on_top(), OnTop::Nothing);
    r.open_context_menu(Scalar(0), Scalar(0), None, 100);
    assert_eq!(r.on_top(), OnTop::Menu);
    r.open_modal(ModalAction::CloseTab, "t".into(), "b".into(), "c", "d");
    assert_eq!(r.on_top(), OnTop::Modal);
}

#[test]
fn memory_has_its_limit() {
    assert_eq!(rss_limit_bytes(None), DEFAULT_RSS_LIMIT_GB * GIB);
    assert_eq!(rss_limit_bytes(Some(2)), 2 << 30);
    assert_eq!(rss_limit_bytes(Some(0)), 0);
    assert_eq!(rss_limit_bytes(Some(u64::MAX)), u64::MAX);
    let mut r = window();
    assert!(!r.over_memory_limit(None));
    assert!(!r.over_memory_limit(Some(10 * GIB)));
    assert!(r.over_memory_limit(Some(10 * GIB + 1)));
    r.rss_kill_bytes = 0;
    assert!(!r.over_memory_limit(Some(u64::MAX)));
}

fn snapshot() -> Snapshot {
    let run = |line: i32, start_col: usize, width: usize, color: u32| Run {
        line,
        start_col,
        width,
        color,
    };
    let lined = |kind: DecorationKind| DecorationRun { run: run(2, 1, 3, 7), kind };
    Snapshot {
        backgrounds: vec![run(0, 0, 2, 5)],
        decorations: vec![
            lined(DecorationKind::Underline),
            lined(DecorationKind::DoubleUnderline),
            lined(DecorationKind::Strikeout),
        ],
        links: vec![run(3, 0, 4, 0)],
        cursor_line: -1,
        cursor_col: 6,
        cursor_shape: CursorShape::Beam,
    }
}

fn inks(ms: &[Mark]) -> Vec<(i32, usize, usize, Ink)> {
    ms.iter().map(|m| (m.line, m.col, m.width, m.ink)).collect()
}

#[test]
fn the_cursor_is_on_top() {
    let mut r = window();
    r.open_find();
    r.find_input('a', &|_: String| vec![(1, 2, 3), (2, 0, 0)]);
    r.ws.active_tab_mut().selection = Some(Selection {
        anchor_line: 0,
        anchor_col: 70,
        head_line: 1,
        head_col: 4,
    });
    let p = r.paint_pane(PaneId(0), &snapshot(), 0, true);
    assert_eq!(
        inks(&p.below),
        vec![
            (0, 0, 2, Ink::Background(5)),
            (0, 70, 10, Ink::Selection),
            (1, 0, 5, Ink::Selection),
            (1, 2, 2, Ink::CurrentMatch),
            (2, 0, 1, Ink::Match),
            (0, 6, 1, Ink::Cursor(CursorShape::Beam)),
        ]
    );
    assert_eq!(
        inks(&p.above),
        vec![
            (2, 1, 3, Ink::Underline(7)),
            (2, 1, 3, Ink::Underline(7)),
            (2, 1, 3, Ink::SecondUnderline(7)),
            (2, 1, 3, Ink::Strikeout(7)),
            (3, 0, 4, Ink::Link),
        ]
    );
}

#[test]
fn a_cursor_that_is_off_is_not_painted() {
    let mut r = window();
    let p = r.paint_pane(PaneId(0), &snapshot(), 0, false);
    assert_eq!(inks(&p.below), vec![(0, 0, 2, Ink::Background(5))]);
    let hidden = Snapshot { cursor_shape: CursorShape::Hidden, ..snapshot() };
    assert_eq!(r.paint_pane(PaneId(0), &hidden, 0, true).below.len(), 1);
    // Matches are those of the active pane's search.
    r.open_find();
    r.find_input('a', &|_: String| vec![(1, 2, 3)]);
    r.split_active(SplitDir::Vertical, Scalar(0x3f000000));
    assert_eq!(r.paint_pane(PaneId(0), &hidden, 0, true).below.len(), 1);
    assert_eq!(r.paint_pane(PaneId(1), &hidden, 0, true).below.len(), 2);
    assert_eq!(r.ws.active_tab_ref().id, TabId(1));
}

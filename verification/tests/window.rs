use terminite::renderer::{BellStyle, Effects, ModalAction, Renderer, Settings};
use terminite::tab::TabId;
use terminite::tree::{PaneId, Scalar, SplitDir};

fn window() -> Renderer {
    let config = Settings {
        bell_style: BellStyle::Visual,
        cursor_blink: true,
        comms_delivery: true,
    };
    Renderer::new(80, 24, (800, 600), Vec::new(), config, 0, 5)
}

fn effects(reload: bool, relayout: bool, retitle: bool, redraw: bool, persist: bool) -> Effects {
    Effects {
        reload_config: reload,
        relayout,
        retitle,
        redraw,
        persist,
    }
}

fn half() -> Scalar {
    Scalar(0x3f000000)
}

fn shown(r: &Renderer) -> u64 {
    r.ws.active_tab_ref().id.0
}

fn tabs(r: &Renderer) -> Vec<u64> {
    r.ws.active_pane_ref().tabs.iter().map(|t| t.id.0).collect()
}

fn panes(r: &Renderer) -> usize {
    r.ws.root_ref().leaf_count()
}

#[test]
fn a_window_opens_with_one_shell() {
    let r = window();
    assert_eq!(panes(&r), 1);
    assert_eq!(tabs(&r), vec![0]);
    assert_eq!(r.ws.active_tab_ref().title, "terminite");
    assert_eq!(r.start_time, 5);
    assert!(r.focused);
    assert!(!r.has_modal() && !r.has_find() && !r.has_palette() && !r.has_context_menu());
    assert!(!r.has_display_settings() && !r.has_file_claims());
}

#[test]
fn an_empty_size_is_passed_over() {
    let mut r = window();
    assert_eq!(r.resize(0, 600), effects(false, false, false, false, false));
    assert_eq!(r.resize(800, 0), effects(false, false, false, false, false));
    assert_eq!(r.surface, (800, 600));
    assert_eq!(r.resize(640, 480), effects(false, true, false, false, false));
    assert_eq!(r.surface, (640, 480));
}

#[test]
fn a_new_tab_is_shown() {
    let mut r = window();
    let (id, e) = r.new_tab(100, 30);
    assert_eq!(id, TabId(1));
    assert_eq!(e, effects(false, false, true, true, true));
    assert_eq!(tabs(&r), vec![0, 1]);
    assert_eq!(shown(&r), 1);
    assert_eq!((r.ws.grid_cols, r.ws.grid_rows), (100, 30));
}

#[test]
fn an_id_is_not_given_twice() {
    let mut r = window();
    r.new_tab(80, 24);
    r.do_close_active_tab();
    assert_eq!(r.new_tab(80, 24).0, TabId(2));
    assert_eq!(r.split_active(SplitDir::Vertical, half()).0, TabId(3));
    assert_eq!(tabs(&r), vec![3]);
}

#[test]
fn opening_then_closing_a_tab_gives_the_window_back() {
    let mut r = window();
    r.new_tab(80, 24);
    let (exit, e) = r.close_active_tab(false, None);
    assert!(!exit);
    assert_eq!(e, effects(false, false, true, true, true));
    assert_eq!(tabs(&r), vec![0]);
    assert_eq!(shown(&r), 0);
}

#[test]
fn tabs_are_gone_through_in_a_circle() {
    let mut r = window();
    r.new_tab(80, 24);
    r.new_tab(80, 24);
    assert_eq!(shown(&r), 2);
    assert_eq!(r.next_tab(), effects(false, false, true, true, false));
    assert_eq!(shown(&r), 0);
    r.prev_tab();
    assert_eq!(shown(&r), 2);
    r.prev_tab();
    r.next_tab();
    assert_eq!(shown(&r), 2);
    // Past the end, and where the tab is on show already.
    assert_eq!(r.switch_to_tab(3), effects(false, false, false, false, false));
    assert_eq!(r.switch_to_tab(2), effects(false, false, false, false, false));
    r.switch_to_tab(1);
    assert_eq!(shown(&r), 1);
    // The tab that follows takes the place of the one that closes.
    r.do_close_active_tab();
    assert_eq!(tabs(&r), vec![0, 2]);
    assert_eq!(shown(&r), 2);
}

#[test]
fn one_tab_has_no_other() {
    let mut r = window();
    assert_eq!(r.next_tab(), effects(false, false, false, false, false));
    assert_eq!(r.prev_tab(), effects(false, false, false, false, false));
}

#[test]
fn a_split_focuses_its_new_pane() {
    let mut r = window();
    let (id, e) = r.split_active(SplitDir::Horizontal, half());
    assert_eq!(id, TabId(1));
    assert_eq!(e, effects(false, true, false, true, true));
    assert_eq!(panes(&r), 2);
    assert_eq!(r.ws.active_pane, PaneId(1));
    assert_eq!(shown(&r), 1);
}

#[test]
fn focus_goes_and_comes_back() {
    let mut r = window();
    r.split_active(SplitDir::Vertical, half());
    assert_eq!(r.focus_pane(PaneId(1)), effects(false, false, false, false, false));
    assert_eq!(r.focus_dir(Some(PaneId(0))), effects(true, false, true, true, false));
    assert_eq!(shown(&r), 0);
    assert_eq!(r.focus_dir(None), effects(false, false, false, false, false));
    r.focus_pane(PaneId(1));
    assert_eq!(shown(&r), 1);
}

#[test]
fn a_split_then_a_close_gives_the_pane_back() {
    let mut r = window();
    r.split_active(SplitDir::Vertical, half());
    let (exit, e) = r.close_active_pane();
    assert!(!exit);
    assert_eq!(e, effects(false, true, true, true, true));
    assert_eq!(panes(&r), 1);
    assert_eq!(r.ws.active_pane, PaneId(0));
}

#[test]
fn the_last_tab_of_a_pane_closes_it() {
    let mut r = window();
    r.split_active(SplitDir::Vertical, half());
    assert_eq!(r.do_close_active_tab(), (false, effects(false, true, true, true, true)));
    assert_eq!(panes(&r), 1);
}

#[test]
fn the_last_tab_of_the_window_ends_it() {
    let mut r = window();
    assert_eq!(r.close_active_tab(false, None), (true, effects(false, false, false, false, false)));
    assert_eq!(r.close_active_pane(), (true, effects(false, false, false, false, false)));
    assert_eq!(tabs(&r), vec![0]);
}

#[test]
fn a_busy_tab_asks_first() {
    let mut r = window();
    r.new_tab(80, 24);
    assert_eq!(
        r.close_active_tab(true, Some("vim")),
        (false, effects(false, false, false, true, false))
    );
    {
        let m = r.modal.as_ref().unwrap();
        assert_eq!(m.title, "Close tab?");
        assert_eq!(m.body, "vim is running in this tab.");
        assert_eq!((m.cancel.as_str(), m.confirm.as_str()), ("Cancel", "Close"));
    }
    // A second request while it asks is passed over.
    assert_eq!(
        r.close_active_tab(false, None),
        (false, effects(false, false, false, false, false))
    );
    assert_eq!(tabs(&r), vec![0, 1]);
    r.modal_cancel();
    assert_eq!(tabs(&r), vec![0, 1]);
    r.close_active_tab(true, None);
    assert_eq!(r.modal.as_ref().unwrap().body, "A process is running in this tab.");
    assert_eq!(r.modal_confirm(), (false, effects(false, false, true, true, true)));
    assert_eq!(tabs(&r), vec![0]);
    assert!(!r.has_modal());
}

#[test]
fn a_busy_pane_asks_first() {
    let mut r = window();
    // The only pane stays.
    assert_eq!(r.request_close_active_pane(None), effects(false, false, false, false, false));
    r.split_active(SplitDir::Vertical, half());
    r.request_close_active_pane(Some(Some("make")));
    assert_eq!(r.modal.as_ref().unwrap().body, "make is running in this pane.");
    r.modal_cancel();
    r.new_tab(80, 24);
    r.request_close_active_pane(Some(None));
    assert_eq!(
        r.modal.as_ref().unwrap().body,
        "A process is running in this pane (2 tabs)."
    );
    assert_eq!(r.modal_click(true, false), (false, effects(false, true, true, true, true)));
    assert_eq!(panes(&r), 1);
    r.split_active(SplitDir::Vertical, half());
    assert_eq!(r.request_close_active_pane(None), effects(false, true, true, true, true));
    assert_eq!(panes(&r), 1);
}

#[test]
fn modals_are_clicked() {
    let mut r = window();
    // No modal: nothing to click.
    assert_eq!(r.modal_click(true, true), (false, effects(false, false, false, false, false)));
    assert_eq!(r.modal_confirm(), (false, effects(false, false, false, false, false)));
    r.open_modal(ModalAction::CrashNotice, "t".into(), "b".into(), "no", "yes");
    assert_eq!(r.modal_click(false, false), (false, effects(false, false, false, false, false)));
    assert!(r.has_modal());
    assert_eq!(r.modal_click(false, true), (false, effects(false, false, false, true, false)));
    assert!(!r.has_modal());
    r.open_modal(ModalAction::CrashNotice, "t".into(), "b".into(), "no", "yes");
    assert_eq!(r.modal_click(true, false), (true, effects(false, false, false, true, false)));
}

#[test]
fn confirming_on_the_last_tab_ends_the_window() {
    let mut r = window();
    r.close_active_tab(true, None);
    assert_eq!(r.modal_confirm(), (true, effects(false, false, false, true, false)));
}

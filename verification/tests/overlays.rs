use terminite::colors::{next_color_idx, next_scale_preset, palette_name, PALETTE_LEN};
use terminite::cycle::{go_after, go_before};
use terminite::find::{find_rows, FindState, Match};
use terminite::menu::{
    color_items, context_items, is_same_kind, kind_items, scale_items, MenuAction,
};
use terminite::overlays::{
    display_advice, may_open_uri, slider_label, slider_range, HostCommand, Picked, Ran, ScrollTarget,
};
use terminite::palette::{palette_command, palette_row, PaletteState, COMMANDS};
use terminite::renderer::{BellStyle, Renderer, Settings, SliderKind};
use terminite::tab::{ModuleKind, ModuleManifest, TabContentKind, TabId};
use terminite::tree::{PaneId, Scalar};

fn module(id: &str, name: &str) -> ModuleManifest {
    ModuleManifest {
        id: id.into(),
        name: name.into(),
        version: "1".into(),
        binary: "b".into(),
        kind: ModuleKind::Data,
    }
}

fn window() -> Renderer {
    let config = Settings {
        bell_style: BellStyle::Visual,
        cursor_blink: true,
        comms_delivery: true,
    };
    let modules = vec![module("clock", "Clock"), module("files", "Files")];
    Renderer::new(80, 24, (800, 600), modules, config, 0, 0)
}

/// The lines 3, 1 and 4 match anything that is not empty.
fn search(q: String) -> Vec<Match> {
    if q.is_empty() {
        Vec::new()
    } else {
        let n = q.chars().count();
        vec![(3, 0, n), (1, 2, n + 2), (4, 0, n)]
    }
}

fn type_in(r: &mut Renderer, text: &str) {
    for c in text.chars() {
        r.palette_input(c);
    }
}

#[test]
fn steps_round_a_circle() {
    assert_eq!(go_after(2, 3), 0);
    assert_eq!(go_before(0, 3), 2);
    for i in 0..5 {
        assert_eq!(go_before(go_after(i, 5), 5), i);
        assert_eq!(go_after(go_before(i, 5), 5), i);
    }
}

#[test]
fn colors_cycle() {
    let names: Vec<&str> = (0..8).map(palette_name).collect();
    assert_eq!(
        names,
        vec!["none", "red", "yellow", "green", "blue", "magenta", "cyan", "none"]
    );
    let mut c = 3;
    for _ in 0..PALETTE_LEN {
        c = next_color_idx(c);
    }
    assert_eq!(c, 3);
    assert_eq!(next_color_idx(6), 0);
    assert_eq!(next_color_idx(255), 4);
    assert_eq!(next_scale_preset(None), 1);
    assert_eq!(next_scale_preset(Some(1)), 2);
    assert_eq!(next_scale_preset(Some(4)), 0);
}

#[test]
fn the_find_bar_says_where_it_is() {
    let mut f = FindState::new();
    assert_eq!(f.bar_text(), "Find:");
    f.query = "ab".into();
    assert_eq!(f.bar_text(), "Find: ab   no matches");
    assert_eq!(f.target_line(), None);
    f.set_matches(search("ab".into()));
    assert_eq!(f.bar_text(), "Find: ab   1/3");
    f.go_prev();
    assert_eq!(f.bar_text(), "Find: ab   3/3");
    assert_eq!(f.target_line(), Some(4));
    f.go_next();
    assert_eq!(f.target_line(), Some(3));
}

#[test]
fn typing_searches() {
    let mut r = window();
    assert_eq!(r.find_next().1, None);
    r.open_find();
    assert!(r.has_find());
    let (e, at) = r.find_input('a', &search);
    assert!(e.redraw);
    assert_eq!(at, Some(ScrollTarget { line: 3, rows: 24 }));
    assert_eq!(r.find_next().1, Some(ScrollTarget { line: 1, rows: 24 }));
    r.find_next();
    assert_eq!(r.find_next().1, Some(ScrollTarget { line: 3, rows: 24 }));
    assert_eq!(r.find_prev().1, Some(ScrollTarget { line: 4, rows: 24 }));
    assert_eq!(r.find_backspace(&search).1, None);
    assert_eq!(r.find.as_ref().unwrap().query, "");
    r.close_find();
    assert!(!r.has_find());
}

#[test]
fn matches_in_view_are_marked() {
    let mut f = FindState::new();
    f.query = "a".into();
    f.set_matches(vec![(-3, 0, 1), (1, 2, 3), (4, 0, 1)]);
    f.go_next();
    // Scrolled back by two lines, absolute line 1 is row 3. The row above the
    // first shows too, in part.
    let rows: Vec<(i32, usize, usize, bool)> = find_rows(&f, 2, 4)
        .iter()
        .map(|m| (m.row, m.start, m.end, m.current))
        .collect();
    assert_eq!(rows, vec![(-1, 0, 2, false), (3, 2, 4, true)]);
    assert_eq!(find_rows(&f, 1, 4).len(), 1);
}

#[test]
fn every_command_has_its_row() {
    assert_eq!(palette_row(0), "New Tab                 \u{2318}T");
    assert_eq!(palette_row(23), "Room Files — active claims");
    assert_eq!(palette_command(COMMANDS - 1).0, "Quit");
    let p = PaletteState::open();
    assert_eq!(p.filtered.len(), COMMANDS);
    assert_eq!(p.palette_layout(), (0, 10));
}

#[test]
fn the_palette_lists_what_matches() {
    let mut p = PaletteState::open();
    for c in "SPLIT".chars() {
        p.input(c);
    }
    // Letter case does not count.
    assert_eq!(p.filtered, vec![1, 2]);
    assert!(p.step(true));
    assert_eq!(p.selected, 1);
    assert!(p.step(true));
    assert_eq!(p.selected, 0);
    for c in " right!".chars() {
        p.input(c);
    }
    assert!(p.filtered.is_empty());
    assert!(p.selected_action().is_none());
    assert!(!p.step(false));
    p.backspace();
    assert_eq!(p.filtered, vec![1]);
    assert_eq!(p.prompt(), "› SPLIT right");
}

#[test]
fn the_palette_runs_commands() {
    let mut r = window();
    r.open_palette();
    type_in(&mut r, "split down");
    assert!(matches!(r.palette_execute().0, Ran::Opened(TabId(1))));
    assert!(!r.has_palette());
    assert_eq!(r.ws.root_ref().leaf_count(), 2);

    r.open_palette();
    type_in(&mut r, "reset");
    assert!(matches!(r.palette_execute().0, Ran::Host(HostCommand::ZoomReset)));

    r.open_palette();
    type_in(&mut r, "find");
    assert!(matches!(r.palette_execute().0, Ran::Done));
    assert!(r.has_find());

    r.open_palette();
    r.palette_move(false);
    assert!(matches!(r.palette_execute().0, Ran::Exit));

    r.open_palette();
    type_in(&mut r, "zzz");
    r.palette_backspace();
    assert!(matches!(r.palette_execute().0, Ran::Nothing));
    r.open_palette();
    r.close_palette();
    assert!(!r.has_palette());
}

#[test]
fn the_palette_changes_tabs() {
    let mut r = window();
    r.new_tab(80, 24);
    r.open_palette();
    type_in(&mut r, "previous");
    let (ran, e) = r.palette_execute();
    assert!(matches!(ran, Ran::Done));
    assert!(e.redraw && e.retitle);
    assert_eq!(r.ws.active_tab_ref().id, TabId(0));
}

#[test]
fn context_rows_show_the_settings() {
    let rows = context_items(false, Some("https://x".into()), 1, 4, 125);
    let labels: Vec<&str> = rows.iter().map(|i| i.label.as_str()).collect();
    assert_eq!(
        labels,
        vec![
            "Copy",
            "Paste",
            "Open Link",
            "Select All",
            "Tab color: red  ▸",
            "Pane bg: blue  ▸",
            "Pane scale: 125%  ▸",
        ]
    );
    assert!(!rows[0].enabled);
    assert!(rows[1].enabled);
    let rows = context_items(true, None, 0, 0, 100);
    assert_eq!(rows.len(), 6);
    assert!(rows[0].enabled);
}

#[test]
fn pickers_list_every_choice() {
    let rows = color_items(false);
    assert_eq!(rows.len(), 7);
    assert_eq!((rows[0].label.as_str(), rows[0].swatch), ("   none", None));
    assert_eq!((rows[6].label.as_str(), rows[6].swatch), ("   cyan", Some(6)));
    assert!(matches!(rows[6].action, MenuAction::SetTabColor(6)));
    assert!(matches!(color_items(true)[2].action, MenuAction::SetPaneBg(2)));
    let scales: Vec<(String, f32)> = scale_items()
        .iter()
        .map(|i| match i.action {
            MenuAction::SetPaneScale(s) => (i.label.clone(), f32::from_bits(s.0)),
            _ => unreachable!(),
        })
        .collect();
    assert_eq!(
        scales,
        vec![
            ("   100%".to_string(), 1.0),
            ("   80%".to_string(), 0.8),
            ("   65%".to_string(), 0.65),
            ("   125%".to_string(), 1.25),
            ("   150%".to_string(), 1.5),
        ]
    );
}

#[test]
fn kind_rows_mark_the_kind_on_show() {
    let modules = vec![module("clock", "Clock")];
    let current = TabContentKind::Module("clock".into());
    let rows = kind_items(PaneId(7), &current, &modules, false);
    let labels: Vec<&str> = rows.iter().map(|i| i.label.as_str()).collect();
    assert_eq!(
        labels,
        vec!["  Shell", "  Welcome", "• Clock", "  Open modules folder…"]
    );
    assert!(!rows[3].enabled);
    assert!(is_same_kind(&current, &TabContentKind::Module("clock".into())));
    assert!(!is_same_kind(&current, &TabContentKind::Module("files".into())));
    assert!(!is_same_kind(&current, &TabContentKind::Agent("clock".into())));
}

#[test]
fn menu_clicks_are_resolved() {
    let mut r = window();
    let (x, y) = (Scalar(0x41200000), Scalar(0x41a00000));
    assert!(matches!(r.context_menu_click(Some(0)).0, Picked::Nothing));
    r.open_context_menu(x, y, None, 100);
    // Copy is off without a selection; a click closes the menu all the same.
    assert!(matches!(r.context_menu_click(Some(0)).0, Picked::Nothing));
    assert!(!r.has_context_menu());
    r.open_context_menu(x, y, None, 100);
    assert!(matches!(r.context_menu_click(Some(1)).0, Picked::Paste));
    r.open_context_menu(x, y, Some("https://x".into()), 100);
    match r.context_menu_click(Some(2)).0 {
        Picked::OpenLink(uri) => assert_eq!(uri, "https://x"),
        _ => unreachable!(),
    }
    r.open_context_menu(x, y, None, 100);
    assert!(matches!(r.context_menu_click(Some(2)).0, Picked::SelectAll));
    r.open_context_menu(x, y, None, 100);
    assert!(matches!(r.context_menu_click(None).0, Picked::Nothing));
}

#[test]
fn submenus_open_in_place() {
    let mut r = window();
    let (x, y) = (Scalar(0x41200000), Scalar(0x41a00000));
    r.open_context_menu(x, y, None, 100);
    assert!(matches!(r.context_menu_click(Some(3)).0, Picked::Submenu));
    {
        let m = r.context_menu.as_ref().unwrap();
        assert_eq!((m.x, m.y, m.items.len()), (x, y, 7));
    }
    assert!(matches!(r.context_menu_click(Some(5)).0, Picked::Done));
    assert_eq!(r.ws.active_tab_ref().color_idx, 5);
    r.open_context_menu(x, y, None, 100);
    r.context_menu_click(Some(4));
    r.context_menu_click(Some(2));
    assert_eq!(r.ws.active_pane_ref().bg_idx, 2);
    r.open_context_menu(x, y, None, 100);
    r.context_menu_click(Some(5));
    match r.context_menu_click(Some(1)).0 {
        Picked::SetPaneScale { pane, scale } => {
            assert_eq!(pane, PaneId(0));
            assert_eq!(f32::from_bits(scale.0), 0.8);
        },
        _ => unreachable!(),
    }
}

#[test]
fn the_kind_dropdown_picks_a_kind() {
    let mut r = window();
    r.open_kind_dropdown(PaneId(0), Scalar(0), Scalar(0), true);
    r.move_menu(Scalar(1), Scalar(2));
    assert_eq!(r.context_menu.as_ref().unwrap().y, Scalar(2));
    match r.context_menu_click(Some(3)).0 {
        Picked::SetTabKind { pane, kind } => {
            assert_eq!(pane, PaneId(0));
            assert_eq!(kind.key(), "files");
        },
        _ => unreachable!(),
    }
    r.open_kind_dropdown(PaneId(0), Scalar(0), Scalar(0), true);
    assert!(matches!(r.context_menu_click(Some(4)).0, Picked::OpenModulesFolder));
    r.open_kind_dropdown(PaneId(0), Scalar(0), Scalar(0), false);
    assert!(matches!(r.context_menu_click(Some(4)).0, Picked::Nothing));
    r.open_kind_dropdown(PaneId(0), Scalar(0), Scalar(0), false);
    r.dismiss_context_menu();
    assert!(!r.has_context_menu());
    // A pane that is gone counts as one with a shell.
    r.open_kind_dropdown(PaneId(9), Scalar(0), Scalar(0), false);
    let labels: Vec<String> =
        r.context_menu.as_ref().unwrap().items.iter().map(|i| i.label.clone()).collect();
    let want: Vec<String> = kind_items(PaneId(9), &TabContentKind::Shell, &r.modules, false)
        .iter()
        .map(|i| i.label.clone())
        .collect();
    assert_eq!(labels, want);
}

#[test]
fn sliders_have_their_ranges() {
    assert_eq!(slider_range(SliderKind::Content), (8, 40));
    assert_eq!(slider_range(SliderKind::Tab), (8, 28));
    assert_eq!(slider_range(SliderKind::TabHeight), (24, 80));
    assert_eq!(slider_label(SliderKind::Content, 14), "Terminal text — 14 pt");
    assert_eq!(slider_label(SliderKind::Tab, 12), "Tab bar — 12 pt");
    assert_eq!(slider_label(SliderKind::TabHeight, 32), "Tab height — 32 px");
}

#[test]
fn displays_get_advice() {
    assert_eq!(display_advice(true, false, (800, 600)), "Consider zooming out for sharper text");
    assert_eq!(display_advice(false, true, (2501, 1)), "Consider zooming in for readability");
    assert_eq!(display_advice(false, true, (1, 1401)), "Consider zooming in for readability");
    assert_eq!(display_advice(false, true, (2500, 1400)), "Display looks good");
    assert_eq!(display_advice(false, false, (9999, 9999)), "Display looks good");
}

#[test]
fn only_harmless_links_open() {
    for uri in ["http://a", "https://a", "file:///a", "mailto:a@b"] {
        assert!(may_open_uri(uri));
    }
    for uri in ["", "javascript:1", "HTTP://a", "ftp://a", "mailt"] {
        assert!(!may_open_uri(uri));
    }
}

#[test]
fn panels_open_and_close() {
    let mut r = window();
    r.open_display_settings();
    assert!(r.has_display_settings());
    r.close_display_settings();
    assert!(!r.has_display_settings());
    r.claims_overlay = true;
    assert!(r.has_file_claims());
    r.close_file_claims();
    assert!(!r.has_file_claims());
}

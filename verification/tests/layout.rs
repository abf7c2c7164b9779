use terminite::renderer::{BellStyle, Effects, Renderer, Settings};
use terminite::restore::Start;
use terminite::saved::{Layout, LayoutNode, LayoutPane};
use terminite::tab::{ModuleKind, ModuleManifest, TabContentKind, TabId};
use terminite::tree::{PaneId, PaneNode, Scalar, SplitDir};

fn window() -> Renderer {
    let config = Settings {
        bell_style: BellStyle::Visual,
        cursor_blink: true,
        comms_delivery: true,
    };
    let modules = vec![ModuleManifest {
        id: "notes".into(),
        name: "Notes".into(),
        version: "1".into(),
        binary: "n".into(),
        kind: ModuleKind::Data,
    }];
    Renderer::new(80, 24, (800, 600), modules, config, 0, 0)
}

/// 0 | (1 / 2), with two tabs in the first pane and a module in the last.
fn arranged() -> Renderer {
    let mut r = window();
    r.new_tab(80, 24);
    r.switch_to_tab(0);
    r.split_active(SplitDir::Vertical, Scalar(0x3e800000));
    r.split_active(SplitDir::Horizontal, Scalar(0x3f000000));
    r.set_tab_kind(PaneId(2), TabContentKind::Module("notes".into()), true);
    {
        let t = r.ws.active_tab_mut();
        t.color_idx = 3;
        t.last_focused_path = Some("/a.rs".into());
    }
    r.ws.set_pane_bg(5);
    r.focus_pane(PaneId(1));
    r
}

/// Restore a layout; everything that it needs comes up.
fn restore(r: &mut Renderer, l: Layout) -> (bool, Vec<TabId>, Effects) {
    let up: Vec<TabId> = r.starts_for(&l).iter().map(|s| s.tab).collect();
    r.restore_layout(l, &up)
}

fn leaves(r: &Renderer) -> Vec<(usize, usize, u8)> {
    let mut panes = Vec::new();
    r.ws.root_ref().all_panes(&mut panes);
    panes.iter().map(|p| (p.tabs.len(), p.active_tab, p.bg_idx)).collect()
}

#[test]
fn a_layout_gives_the_window_back() {
    let a = arranged();
    let cwds = vec![Some("/x".to_string()), None, None, None];
    let l = a.persist_layout(&cwds);
    assert_eq!(l.active_pane_path, Some(vec![1, 0]));
    let mut b = window();
    let starts = b.starts_for(&l);
    let want = Start { tab: TabId(4), kind: TabContentKind::Module("notes".into()) };
    assert_eq!(starts, vec![want]);
    let (ok, replays, e) = b.restore_layout(l, &vec![TabId(4)]);
    assert!(ok);
    assert_eq!(replays, vec![TabId(4)]);
    assert!(e.redraw && e.retitle && e.persist);
    assert_eq!(leaves(&b), leaves(&a));
    assert_eq!(leaves(&b), vec![(2, 0, 0), (1, 0, 0), (1, 0, 5)]);
    // The pane that had the focus has it again.
    assert_eq!(b.ws.root_ref().path_to(b.ws.active_pane), Some(vec![1, 0]));
    let t = b.ws.root_ref().find_tab(TabId(4)).unwrap();
    assert_eq!((t.color_idx, t.kind.key()), (3, "notes"));
    assert_eq!(t.last_focused_path.as_deref(), Some("/a.rs"));
    assert!(t.is_data_module());
    // Written down again it is the same, apart from ids.
    let m = b.persist_layout(&cwds);
    assert_eq!(m.active_pane_path, Some(vec![1, 0]));
    match m.root {
        LayoutNode::Split { dir, ratio, .. } => {
            assert_eq!((dir, ratio), (SplitDir::Vertical, Scalar(0x3e800000)));
        },
        _ => panic!("no split"),
    }
}

#[test]
fn what_is_written_down() {
    let a = arranged();
    let cwds = vec![Some("/x".to_string()), None, Some("/y".to_string()), None];
    match a.persist_layout(&cwds).root {
        LayoutNode::Split { first, second, .. } => {
            match *first {
                LayoutNode::Pane(p) => {
                    assert_eq!((p.tabs.len(), p.active_tab), (2, 0));
                    assert_eq!(p.tabs[0].cwd.as_deref(), Some("/x"));
                    assert_eq!(p.tabs[1].cwd, None);
                },
                _ => panic!("no pane"),
            }
            match *second {
                LayoutNode::Split { first, second, .. } => {
                    match *first {
                        LayoutNode::Pane(p) => assert_eq!(p.tabs[0].cwd.as_deref(), Some("/y")),
                        _ => panic!("no pane"),
                    }
                    match *second {
                        LayoutNode::Pane(p) => assert_eq!((p.bg_idx, p.tabs[0].color_idx), (5, 3)),
                        _ => panic!("no pane"),
                    }
                },
                _ => panic!("no split"),
            }
        },
        _ => panic!("no split"),
    }
}

#[test]
fn ratios_are_brought_into_range() {
    let mut l = arranged().persist_layout(&vec![None, None, None, None]);
    if let LayoutNode::Split { ratio, .. } = &mut l.root {
        *ratio = Scalar(0.99f32.to_bits());
    }
    let mut r = window();
    assert!(restore(&mut r, l).0);
    match r.ws.root_ref() {
        PaneNode::Split { ratio, .. } => assert_eq!(f32::from_bits(ratio.0), 0.9),
        _ => panic!("no split"),
    }
}

#[test]
fn a_layout_without_tabs_is_refused() {
    let pane = || {
        LayoutNode::Pane(LayoutPane {
            tabs: Vec::new(),
            active_tab: 0,
            bg_idx: 0,
            font_scale: Scalar(0x3f800000),
        })
    };
    assert!(!pane().can_show());
    let mut r = window();
    let (ok, replays, e) = restore(&mut r, Layout { active_pane_path: None, root: pane() });
    assert!(!ok && replays.is_empty() && !e.redraw);
    assert_eq!(r.ws.active_pane, PaneId(0));
    assert_eq!(r.ws.active_tab_ref().id, TabId(0));
}

#[test]
fn a_path_that_leads_nowhere_gives_the_first_pane() {
    let mut l = arranged().persist_layout(&vec![None, None, None, None]);
    l.active_pane_path = Some(vec![0, 0, 0]);
    let mut r = window();
    restore(&mut r, l);
    assert_eq!(r.ws.active_pane, r.ws.root_ref().first_leaf_id());
}

#[test]
fn a_tab_that_is_gone_gives_the_last_one() {
    let mut l = arranged().persist_layout(&vec![None, None, None, None]);
    if let LayoutNode::Split { first, .. } = &mut l.root {
        if let LayoutNode::Pane(p) = &mut **first {
            p.active_tab = 9;
        }
    }
    let mut r = window();
    assert!(restore(&mut r, l).0);
    assert_eq!(leaves(&r)[0], (2, 1, 0));
}

#[test]
fn what_could_not_be_started_is_not_there() {
    let l = arranged().persist_layout(&vec![None, None, None, None]);
    let mut r = window();
    let (ok, replays, _) = r.restore_layout(l, &Vec::new());
    assert!(ok && replays.is_empty());
    assert!(r.ws.root_ref().find_tab(TabId(4)).unwrap().module_session.is_none());
}

#[test]
fn shells_alone_are_not_written_again() {
    let l = window().persist_layout(&vec![None]);
    let mut r = window();
    let (ok, _, e) = restore(&mut r, l);
    assert!(ok && !e.persist);
}

#[test]
fn a_path_leads_back() {
    let r = arranged();
    let t = r.ws.root_ref();
    for id in [0, 1, 2] {
        let path = t.path_to(PaneId(id)).unwrap();
        assert_eq!(t.pane_id_at_path(&path), Some(PaneId(id)));
    }
    assert_eq!(t.path_to(PaneId(7)), None);
    assert_eq!(t.pane_id_at_path(&[]), None);
    assert_eq!(t.pane_id_at_path(&[1, 7]), Some(PaneId(2)));
}

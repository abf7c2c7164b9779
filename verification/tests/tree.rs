use terminite::saved::clamp_saved_ratio;
use terminite::tab::{Tab, TabId};
use terminite::tree::{Pane, PaneId, PaneNode, Scalar, SplitDir};
use terminite::walk::{Divider, DividerHit};

fn leaf(id: u64, tabs: &[u64]) -> PaneNode {
    let mut pane = Pane::single(Tab::new(TabId(tabs[0]), format!("t{}", tabs[0]), 80, 24));
    for t in &tabs[1..] {
        pane.tabs.push(Tab::new(TabId(*t), format!("t{t}"), 80, 24));
    }
    PaneNode::Leaf { id: PaneId(id), pane }
}

fn split(dir: SplitDir, first: PaneNode, second: PaneNode) -> PaneNode {
    PaneNode::Split {
        dir,
        ratio: Scalar(0x3f000000),
        first: Box::new(first),
        second: Box::new(second),
    }
}

/// 1 | (2 / 3)
fn three() -> PaneNode {
    split(
        SplitDir::Vertical,
        leaf(1, &[10, 11]),
        split(SplitDir::Horizontal, leaf(2, &[12]), leaf(3, &[13])),
    )
}

fn ids(t: &PaneNode) -> Vec<u64> {
    let mut tabs: Vec<&Tab> = Vec::new();
    t.all_tabs(&mut tabs);
    tabs.iter().map(|t| t.id.0).collect()
}

#[test]
fn tabs_and_panes_in_order() {
    let t = three();
    assert_eq!(ids(&t), vec![10, 11, 12, 13]);
    let mut panes: Vec<&Pane> = Vec::new();
    t.all_panes(&mut panes);
    assert_eq!(panes.len(), 3);
    assert_eq!(panes[0].tabs.len(), 2);
    assert_eq!(t.leaf_count(), 3);
    assert_eq!(t.first_leaf_id(), PaneId(1));
}

#[test]
fn panes_and_tabs_are_found() {
    let t = three();
    assert_eq!(t.find(PaneId(2)).unwrap().tabs[0].id, TabId(12));
    assert!(t.find(PaneId(9)).is_none());
    assert!(t.holds_tab(TabId(13)));
    assert!(!t.holds_tab(TabId(1)));
    assert_eq!(t.find_tab(TabId(11)).unwrap().title, "t11");
    assert!(t.find_tab(TabId(1)).is_none());
}

#[test]
fn a_tab_is_changed_in_place() {
    let mut t = three();
    t.find_tab_mut(TabId(12)).unwrap().color_idx = 3;
    assert_eq!(t.find_tab(TabId(12)).unwrap().color_idx, 3);
    assert_eq!(t.find_tab(TabId(13)).unwrap().color_idx, 0);
    assert_eq!(ids(&t), vec![10, 11, 12, 13]);
    assert!(t.find_tab_mut(TabId(99)).is_none());
    t.find_mut(PaneId(3)).unwrap().bg_idx = 4;
    assert_eq!(t.find(PaneId(3)).unwrap().bg_idx, 4);
    assert_eq!(t.find(PaneId(2)).unwrap().bg_idx, 0);
}

#[test]
fn splitting_then_closing_gives_the_tree_back() {
    let t = three();
    let s = t.into_split(
        PaneId(2),
        SplitDir::Vertical,
        PaneId(4),
        Pane::single(Tab::new(TabId(20), String::from("new"), 80, 24)),
        Scalar(1),
    );
    assert_eq!(ids(&s), vec![10, 11, 12, 20, 13]);
    assert_eq!(s.leaf_count(), 4);
    let back = s.into_closed(PaneId(4)).unwrap();
    assert_eq!(ids(&back), vec![10, 11, 12, 13]);
    assert_eq!(back.leaf_count(), 3);
}

#[test]
fn closing_keeps_the_sibling() {
    let t = three().into_closed(PaneId(1)).unwrap();
    assert_eq!(ids(&t), vec![12, 13]);
    let t = t.into_closed(PaneId(3)).unwrap();
    assert_eq!(ids(&t), vec![12]);
    assert!(t.into_closed(PaneId(2)).is_none());
}

#[test]
fn ratios_are_found_by_path() {
    let mut t = three();
    *t.split_ratio_at_mut(&[1]).unwrap() = Scalar(7);
    assert_eq!(*t.split_ratio_at_mut(&[1]).unwrap(), Scalar(7));
    assert_eq!(*t.split_ratio_at_mut(&[]).unwrap(), Scalar(0x3f000000));
    assert!(t.split_ratio_at_mut(&[0]).is_none());
    assert!(t.split_ratio_at_mut(&[1, 1]).is_none());
}

#[test]
fn a_path_leads_back_to_its_pane() {
    let t = three();
    for id in [1u64, 2, 3] {
        let path = t.path_to(PaneId(id)).unwrap();
        assert_eq!(t.pane_id_at_path(&path), Some(PaneId(id)));
    }
    assert_eq!(t.path_to(PaneId(3)).unwrap(), vec![1, 1]);
    assert!(t.path_to(PaneId(8)).is_none());
    assert_eq!(t.pane_id_at_path(&[]), None);
    assert_eq!(t.pane_id_at_path(&[0, 0]), None);
}

// Areas in whole cells: x, y, width, height.
type Area = (i64, i64, i64, i64);

fn cut(a: Area, dir: SplitDir, _ratio: Scalar) -> (Area, Area) {
    match dir {
        SplitDir::Vertical => {
            let w = a.2 / 2;
            ((a.0, a.1, w, a.3), (a.0 + w, a.1, a.2 - w, a.3))
        },
        SplitDir::Horizontal => {
            let h = a.3 / 2;
            ((a.0, a.1, a.2, h), (a.0, a.1 + h, a.2, a.3 - h))
        },
    }
}

#[test]
fn panes_tile_the_area() {
    let mut out: Vec<(PaneId, Area)> = Vec::new();
    three().layout(&cut, (0, 0, 100, 40), &mut out);
    assert_eq!(
        out,
        vec![
            (PaneId(1), (0, 0, 50, 40)),
            (PaneId(2), (50, 0, 50, 20)),
            (PaneId(3), (50, 20, 50, 20)),
        ]
    );
}

#[test]
fn dividers_are_listed_and_found() {
    let mut out: Vec<Divider<Area>> = Vec::new();
    three().collect_dividers(&cut, (0, 0, 100, 40), &mut out);
    assert_eq!(out.len(), 2);
    assert_eq!(out[0].dir, SplitDir::Vertical);
    assert_eq!(out[0].first, (0, 0, 50, 40));
    assert_eq!(out[1].outer, (50, 0, 50, 40));
    // The pointer is on the edge between the two panes on the right.
    let hit = |outer: Area, first: Area, dir: SplitDir| {
        dir == SplitDir::Horizontal && outer.0 <= 70 && first.1 + first.3 == 20
    };
    let found: Option<DividerHit<Area>> = three().divider_at(&cut, &hit, (0, 0, 100, 40));
    let found = found.unwrap();
    assert_eq!(found.path, vec![1]);
    assert_eq!(found.outer, (50, 0, 50, 40));
    let none = |_: Area, _: Area, _: SplitDir| false;
    assert!(three().divider_at(&cut, &none, (0, 0, 100, 40)).is_none());
}

#[test]
fn saved_ratios_are_clamped_as_floats_are() {
    for r in [
        0.0f32, -0.0, 0.05, 0.1, 0.1000001, 0.3, 0.5, 0.9, 0.90001, 1.0, 7.5, -3.0,
        f32::INFINITY, f32::NEG_INFINITY, f32::MIN_POSITIVE, f32::MAX, f32::MIN,
    ] {
        let want = r.clamp(0.1, 0.9);
        assert_eq!(clamp_saved_ratio(Scalar(r.to_bits())), Scalar(want.to_bits()), "{r}");
    }
    let nan = Scalar(f32::NAN.to_bits());
    assert_eq!(clamp_saved_ratio(nan), nan);
    // What was clamped stays where it is.
    let once = clamp_saved_ratio(Scalar(0.01f32.to_bits()));
    assert_eq!(clamp_saved_ratio(once), once);
}

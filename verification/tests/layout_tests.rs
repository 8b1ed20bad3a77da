use panes::layout::{
    constraints, Borders, Pane, PaneType, PercentOrLength, SizedPaneOrSplit, SubPane,
};
use panes::walk::{Visit, Walk};
use ratatui::layout::{Constraint, Direction, Rect};

const NONE: Borders = Borders { bits: 0 };
const ALL: Borders = Borders { bits: 15 };

fn leaf(pane: PaneType, id: u32) -> SizedPaneOrSplit {
    SizedPaneOrSplit::Pane(Pane { pane, borders: NONE, id })
}

fn half(pane: SizedPaneOrSplit) -> SubPane {
    SubPane { size: PercentOrLength::Percent(50), pane }
}

fn two_halves(direction: Direction) -> SizedPaneOrSplit {
    SizedPaneOrSplit::Split {
        direction,
        borders: NONE,
        panes: vec![half(leaf(PaneType::Queue, 1)), half(leaf(PaneType::Lyrics, 2))],
    }
}

fn nested() -> SizedPaneOrSplit {
    SizedPaneOrSplit::Split {
        direction: Direction::Vertical,
        borders: ALL,
        panes: vec![
            SubPane { size: PercentOrLength::Length(3), pane: leaf(PaneType::Header, 1) },
            SubPane { size: PercentOrLength::Percent(100), pane: two_halves(Direction::Horizontal) },
            SubPane { size: PercentOrLength::Length(1), pane: leaf(PaneType::ProgressBar, 4) },
        ],
    }
}

#[test]
fn horizontal_split_of_two_halves() {
    let tree = two_halves(Direction::Horizontal);
    let mut seen: Vec<(u32, Rect, Rect)> = Vec::new();
    let result: Result<(), String> =
        tree.for_each_pane(Rect::new(0, 0, 100, 10), &mut |pane, inner, _borders, outer| {
            seen.push((pane.id, inner, outer));
            Ok(())
        });
    assert_eq!(result, Ok(()));
    assert_eq!(
        seen,
        vec![
            (1, Rect::new(0, 0, 50, 10), Rect::new(0, 0, 50, 10)),
            (2, Rect::new(50, 0, 50, 10), Rect::new(50, 0, 50, 10)),
        ]
    );
    let (a, b) = (seen[0].1, seen[1].1);
    assert!(!a.intersects(b));
    assert_eq!(a.union(b), Rect::new(0, 0, 100, 10));
}

#[test]
fn vertical_split_of_two_halves() {
    let tree = two_halves(Direction::Vertical);
    let mut seen: Vec<Rect> = Vec::new();
    let result: Result<(), ()> =
        tree.for_each_pane(Rect::new(2, 3, 10, 20), &mut |_pane, inner, _borders, _outer| {
            seen.push(inner);
            Ok(())
        });
    assert_eq!(result, Ok(()));
    assert_eq!(seen, vec![Rect::new(2, 3, 10, 10), Rect::new(2, 13, 10, 10)]);
}

#[test]
fn walk_visits_parents_first_and_children_in_order() {
    let tree = nested();
    let mut walk = Walk::new(&tree, Rect::new(0, 0, 42, 12));
    let mut order: Vec<String> = Vec::new();
    while let Some(visit) = walk.next() {
        match visit {
            Visit::Pane { pane, area, borders, outer } => {
                assert_eq!(borders, pane.borders);
                assert_eq!(area, outer);
                order.push(format!("pane {} {}", pane.id, outer));
            }
            Visit::Split { borders, outer } => {
                order.push(format!("split {} {}", borders.bits, outer));
            }
        }
    }
    assert_eq!(
        order,
        vec![
            "split 15 42x12+0+0",
            "pane 1 40x3+1+1",
            "split 0 40x6+1+4",
            "pane 1 20x6+1+4",
            "pane 2 20x6+21+4",
            "pane 4 40x1+1+10",
        ]
    );
    assert!(walk.next().is_none());
}

#[test]
fn every_node_is_visited_once() {
    let tree = nested();
    let mut walk = Walk::new(&tree, Rect::new(0, 0, 80, 24));
    let mut panes = 0;
    let mut splits = 0;
    while let Some(visit) = walk.next() {
        match visit {
            Visit::Pane { .. } => panes += 1,
            Visit::Split { .. } => splits += 1,
        }
    }
    assert_eq!((panes, splits), (4, 2));
    assert_eq!(tree.panes().iter().map(|p| p.id).collect::<Vec<_>>(), vec![1, 1, 2, 4]);
    assert_eq!(leaf(PaneType::Cava, 9).panes().len(), 1);
    let empty =
        SizedPaneOrSplit::Split { direction: Direction::Vertical, borders: NONE, panes: vec![] };
    assert_eq!(empty.panes().len(), 0);
}

#[test]
fn custom_data_threads_through_in_order() {
    let tree = nested();
    let mut log: Vec<String> = Vec::new();
    let result: Result<(), String> = tree.for_each_pane_custom_data(
        Rect::new(0, 0, 42, 12),
        &mut log,
        &mut |pane, _inner, _borders, _outer, log: &mut &mut Vec<String>| {
            log.push(format!("pane {}", pane.id));
            Ok(())
        },
        &mut |borders, _outer, log: &mut &mut Vec<String>| {
            log.push(format!("split {}", borders.bits));
            Ok(())
        },
    );
    assert_eq!(result, Ok(()));
    assert_eq!(log, vec!["split 15", "pane 1", "split 0", "pane 1", "pane 2", "pane 4"]);
}

#[test]
fn first_error_ends_the_walk() {
    let tree = nested();
    let mut calls = 0;
    let result: Result<(), String> = tree.for_each_pane_custom_data(
        Rect::new(0, 0, 42, 12),
        (),
        &mut |pane, _inner, _borders, _outer, _data: &mut ()| {
            calls += 1;
            if pane.id == 2 {
                Err(format!("pane {} failed", pane.id))
            } else {
                Ok(())
            }
        },
        &mut |_borders, _outer, _data: &mut ()| Ok(()),
    );
    assert_eq!(result, Err("pane 2 failed".to_string()));
    assert_eq!(calls, 3);
    let mut splits = 0;
    let result: Result<(), u8> = tree.for_each_pane_custom_data(
        Rect::new(0, 0, 42, 12),
        (),
        &mut |_pane, _inner, _borders, _outer, _data: &mut ()| panic!("no leaf is reached"),
        &mut |_borders, _outer, _data: &mut ()| {
            splits += 1;
            Err(7)
        },
    );
    assert_eq!(result, Err(7));
    assert_eq!(splits, 1);
    let result: Result<(), u8> =
        tree.for_each_pane(Rect::new(0, 0, 42, 12), &mut |pane, _, _, _| {
            if pane.id == 4 { Err(4) } else { Ok(()) }
        });
    assert_eq!(result, Err(4));
}

fn inner_area(borders: Borders, area: Rect) -> Rect {
    let tree = SizedPaneOrSplit::Pane(Pane { pane: PaneType::Queue, borders, id: 0 });
    match Walk::new(&tree, area).next() {
        Some(Visit::Pane { area: inner, borders: seen, outer, .. }) => {
            assert_eq!(seen, borders);
            assert_eq!(outer, area);
            inner
        }
        _ => panic!("a leaf is visited as a pane"),
    }
}

#[test]
fn borders_take_cells_off_the_area() {
    let area = Rect::new(5, 7, 10, 4);
    assert_eq!(inner_area(NONE, area), area);
    assert_eq!(inner_area(ALL, area), Rect::new(6, 8, 8, 2));
    assert_eq!(inner_area(Borders { bits: 1 }, area), Rect::new(5, 8, 10, 3));
    assert_eq!(inner_area(Borders { bits: 2 }, area), Rect::new(5, 7, 9, 4));
    assert_eq!(inner_area(Borders { bits: 4 }, area), Rect::new(5, 7, 10, 3));
    assert_eq!(inner_area(Borders { bits: 8 }, area), Rect::new(6, 7, 9, 4));
    assert_eq!(inner_area(Borders { bits: 0xf0 }, area), area);
    assert_eq!(inner_area(ALL, Rect::new(5, 7, 1, 1)), Rect::new(6, 8, 0, 0));
    assert_eq!(inner_area(ALL, Rect::new(5, 7, 0, 0)), Rect::new(5, 7, 0, 0));
    let edge = Rect { x: u16::MAX, y: u16::MAX, width: 3, height: 3 };
    assert_eq!(inner_area(ALL, edge), Rect { x: u16::MAX, y: u16::MAX, width: 1, height: 1 });
}

#[test]
fn shares_become_constraints() {
    assert_eq!(PercentOrLength::Percent(30).into_constraint(80), Constraint::Percentage(30));
    assert_eq!(PercentOrLength::Length(7).into_constraint(80), Constraint::Length(7));
    assert_eq!(PercentOrLength::Ratio(50).into_constraint(80), Constraint::Length(40));
    assert_eq!(PercentOrLength::Ratio(33).into_constraint(10), Constraint::Length(3));
    assert_eq!(
        PercentOrLength::Ratio(u16::MAX).into_constraint(u16::MAX),
        Constraint::Length(u16::MAX)
    );
    let panes = vec![
        SubPane { size: PercentOrLength::Ratio(200), pane: leaf(PaneType::AlbumArt, 1) },
        SubPane { size: PercentOrLength::Percent(100), pane: leaf(PaneType::Queue, 2) },
    ];
    assert_eq!(
        constraints(&panes, 12),
        vec![Constraint::Length(24), Constraint::Percentage(100)]
    );
}

#[test]
fn ratio_share_is_taken_of_the_other_extent() {
    let tree = SizedPaneOrSplit::Split {
        direction: Direction::Horizontal,
        borders: NONE,
        panes: vec![
            SubPane { size: PercentOrLength::Ratio(200), pane: leaf(PaneType::AlbumArt, 1) },
            SubPane { size: PercentOrLength::Percent(100), pane: leaf(PaneType::Queue, 2) },
        ],
    };
    let mut seen: Vec<Rect> = Vec::new();
    let result: Result<(), ()> =
        tree.for_each_pane(Rect::new(0, 0, 100, 12), &mut |_pane, inner, _, _| {
            seen.push(inner);
            Ok(())
        });
    assert_eq!(result, Ok(()));
    assert_eq!(seen, vec![Rect::new(0, 0, 24, 12), Rect::new(24, 0, 76, 12)]);
}

fn children_areas(tree: &SizedPaneOrSplit, area: Rect) -> Vec<Rect> {
    let mut walk = Walk::new(tree, area);
    let mut areas = Vec::new();
    while let Some(visit) = walk.next() {
        if let Visit::Pane { outer, .. } = visit {
            areas.push(outer);
        }
    }
    areas
}

#[test]
fn division_has_a_part_for_every_child() {
    let area = Rect::new(1, 2, 30, 9);
    let split = |direction, sizes: Vec<PercentOrLength>| SizedPaneOrSplit::Split {
        direction,
        borders: NONE,
        panes: sizes
            .into_iter()
            .map(|size| SubPane { size, pane: leaf(PaneType::Queue, 0) })
            .collect(),
    };
    let sizes = vec![
        PercentOrLength::Length(10),
        PercentOrLength::Percent(50),
        PercentOrLength::Length(0),
    ];
    let parts = children_areas(&split(Direction::Horizontal, sizes), area);
    assert_eq!(parts.len(), 3);
    assert!(parts.iter().all(|p| p.y == area.y && p.height == area.height));
    let parts = children_areas(&split(Direction::Vertical, vec![PercentOrLength::Length(4)]), area);
    assert_eq!(parts, vec![Rect::new(1, 2, 30, 4)]);
    assert_eq!(children_areas(&split(Direction::Vertical, Vec::new()), area), Vec::new());
}

#[test]
fn children_take_the_parts_they_are_handed() {
    let tree = two_halves(Direction::Horizontal);
    let area = Rect::new(0, 0, 100, 10);
    let done = leaf(PaneType::Queue, 0);
    let mut walk = Walk::new(&done, area);
    assert!(matches!(walk.next(), Some(Visit::Pane { .. })));
    assert!(walk.next().is_none());
    let parts = vec![Rect::new(0, 0, 50, 10), Rect::new(50, 0, 50, 10)];
    match walk.enter(&tree, area, &parts) {
        Visit::Split { borders, outer } => {
            assert_eq!(borders, NONE);
            assert_eq!(outer, area);
        }
        Visit::Pane { .. } => panic!("a split is visited as a split"),
    }
    let mut seen = Vec::new();
    while let Some(visit) = walk.next() {
        match visit {
            Visit::Pane { pane, area, outer, .. } => seen.push((pane.id, area, outer)),
            Visit::Split { .. } => panic!("both children are leaves"),
        }
    }
    assert_eq!(
        seen,
        vec![
            (1, Rect::new(0, 0, 50, 10), Rect::new(0, 0, 50, 10)),
            (2, Rect::new(50, 0, 50, 10), Rect::new(50, 0, 50, 10)),
        ]
    );
}

#[test]
fn entering_with_too_few_or_too_many_parts() {
    let tree = two_halves(Direction::Vertical);
    let area = Rect::new(0, 0, 10, 10);
    let done = leaf(PaneType::Queue, 0);
    let mut walk = Walk::new(&done, area);
    while walk.next().is_some() {}
    walk.enter(&tree, area, &vec![Rect::new(0, 0, 10, 3)]);
    let mut ids = Vec::new();
    while let Some(Visit::Pane { pane, outer, .. }) = walk.next() {
        ids.push((pane.id, outer));
    }
    assert_eq!(ids, vec![(1, Rect::new(0, 0, 10, 3))]);
    let parts = vec![Rect::new(0, 0, 10, 3), Rect::new(0, 3, 10, 3), Rect::new(0, 6, 10, 4)];
    walk.enter(&tree, area, &parts);
    let mut ids = Vec::new();
    while let Some(Visit::Pane { pane, outer, .. }) = walk.next() {
        ids.push((pane.id, outer));
    }
    assert_eq!(ids, vec![(1, Rect::new(0, 0, 10, 3)), (2, Rect::new(0, 3, 10, 3))]);
    walk.enter(&done, area, &parts);
    assert!(walk.next().is_none());
}

#[test]
fn parts_lie_inside_the_area() {
    let area = Rect::new(3, 4, 17, 9);
    for direction in [Direction::Horizontal, Direction::Vertical] {
        let tree = SizedPaneOrSplit::Split {
            direction,
            borders: NONE,
            panes: vec![
                SubPane { size: PercentOrLength::Length(40), pane: leaf(PaneType::Queue, 1) },
                SubPane { size: PercentOrLength::Percent(80), pane: leaf(PaneType::Queue, 2) },
                SubPane { size: PercentOrLength::Ratio(300), pane: leaf(PaneType::Queue, 3) },
            ],
        };
        let parts = children_areas(&tree, area);
        assert_eq!(parts.len(), 3);
        for part in parts {
            assert!(part.x >= area.x && part.right() <= area.right());
            assert!(part.y >= area.y && part.bottom() <= area.bottom());
        }
    }
}

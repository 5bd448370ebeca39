//! Where panes lie.

use tutti::layout::{pane_rects, Rect};
use tutti::model::{Direction, Layout, PaneId};

#[test]
fn odd_widths_give_the_first_child_the_extra_cell() {
    let layout = split(Direction::Horizontal, 0.5, leaf(1), leaf(2));
    let rects = pane_rects(&layout, Rect::new(3, 1, 7, 4), None);
    assert_eq!(
        rects,
        vec![(PaneId(1), Rect::new(3, 1, 4, 4)), (PaneId(2), Rect::new(7, 1, 3, 4))]
    );
}

#[test]
fn every_ratio_splits_as_floats_do() {
    for ratio in [0.0f32, 0.1, 0.25, 0.3, 1.0 / 3.0, 0.5, 0.7, 0.9, 0.95, 1.0, 1.5, -0.5] {
        for width in [0u16, 1, 2, 3, 10, 79, 80, 100, 101, 255, 1000, 65535] {
            let layout = split(Direction::Horizontal, ratio, leaf(1), leaf(2));
            let rects = pane_rects(&layout, Rect::new(0, 0, width, 1), None);
            let expected = ((width as f32) * ratio).round() as u16;
            assert_eq!(rects[0].1.width, expected.min(width), "{width} at {ratio}");
            assert_eq!(rects[0].1.width + rects[1].1.width, width);
        }
    }
}

#[test]
fn panes_tile_the_area_cell_by_cell() {
    let layout = split(
        Direction::Vertical,
        0.3,
        split(Direction::Horizontal, 0.7, leaf(1), leaf(2)),
        split(Direction::Horizontal, 0.1, leaf(3), leaf(4)),
    );
    let area = Rect::new(2, 3, 13, 9);
    let rects = pane_rects(&layout, area, None);
    for col in 0..20 {
        for row in 0..20 {
            let holders = rects.iter().filter(|(_, r)| r.contains(col, row)).count();
            assert_eq!(holders, usize::from(area.contains(col, row)), "{col},{row}");
        }
    }
}

fn leaf(id: u64) -> Layout {
    Layout::Leaf(PaneId(id))
}
fn split(direction: Direction, ratio: f32, first: Layout, second: Layout) -> Layout {
    Layout::Split {
        direction,
        ratio: ratio.to_bits(),
        first: Box::new(first),
        second: Box::new(second),
    }
}

#[test]
fn single_leaf_fills_area() {
    let area = Rect::new(0, 0, 80, 24);
    assert_eq!(pane_rects(&leaf(1), area, None), vec![(PaneId(1), area)]);
}

#[test]
fn horizontal_split_divides_width() {
    let rects = pane_rects(
        &split(Direction::Horizontal, 0.5, leaf(1), leaf(2)),
        Rect::new(0, 0, 80, 24),
        None,
    );
    assert_eq!(
        rects,
        vec![
            (PaneId(1), Rect::new(0, 0, 40, 24)),
            (PaneId(2), Rect::new(40, 0, 40, 24)),
        ]
    );
}

#[test]
fn vertical_split_divides_height() {
    let rects = pane_rects(
        &split(Direction::Vertical, 0.5, leaf(1), leaf(2)),
        Rect::new(0, 0, 80, 24),
        None,
    );
    assert_eq!(
        rects,
        vec![
            (PaneId(1), Rect::new(0, 0, 80, 12)),
            (PaneId(2), Rect::new(0, 12, 80, 12)),
        ]
    );
}

#[test]
fn ratio_is_honored_and_widths_tile_exactly() {
    let area = Rect::new(0, 0, 100, 24);
    let rects = pane_rects(
        &split(Direction::Horizontal, 0.3, leaf(1), leaf(2)),
        area,
        None,
    );
    assert_eq!(rects[0].1.width, 30);
    assert_eq!(rects[1].1.width, 70);
    // Children tile the parent with no gap or overlap.
    assert_eq!(rects[0].1.right(), rects[1].1.x);
    assert_eq!(rects[1].1.right(), area.right());
}

#[test]
fn nested_splits_recurse() {
    // Left leaf, right column split into top/bottom.
    let layout = split(
        Direction::Horizontal,
        0.5,
        leaf(1),
        split(Direction::Vertical, 0.5, leaf(2), leaf(3)),
    );
    let rects = pane_rects(&layout, Rect::new(0, 0, 80, 24), None);
    assert_eq!(
        rects,
        vec![
            (PaneId(1), Rect::new(0, 0, 40, 24)),
            (PaneId(2), Rect::new(40, 0, 40, 12)),
            (PaneId(3), Rect::new(40, 12, 40, 12)),
        ]
    );
}

#[test]
fn zoom_fills_area_with_one_pane() {
    let layout = split(Direction::Horizontal, 0.5, leaf(1), leaf(2));
    let area = Rect::new(0, 0, 80, 24);
    assert_eq!(
        pane_rects(&layout, area, Some(PaneId(2))),
        vec![(PaneId(2), area)]
    );
}

#[test]
fn zoom_of_absent_pane_falls_back_to_split() {
    let layout = split(Direction::Horizontal, 0.5, leaf(1), leaf(2));
    let area = Rect::new(0, 0, 80, 24);
    assert_eq!(pane_rects(&layout, area, Some(PaneId(9))).len(), 2);
}

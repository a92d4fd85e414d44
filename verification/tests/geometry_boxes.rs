use noord::layout::geometry::dimensions::fits_extent;
use noord::layout::geometry::{Dimensions, EdgeSizes, Rect, SimpleDimensions, MAX_EXTENT};

fn sample() -> Dimensions {
    Dimensions {
        content: Rect { x: 100, y: 200, width: 300, height: 400 },
        padding: EdgeSizes { left: 1, right: 2, top: 3, bottom: 4 },
        border: EdgeSizes { left: 10, right: 20, top: 30, bottom: 40 },
        margin: EdgeSizes { left: 5, right: 6, top: 7, bottom: 8 },
    }
}

#[test]
fn new_dimensions_have_no_edges() {
    let rect = Rect { x: 1, y: 2, width: 3, height: 4 };
    let d = Dimensions::new(rect);
    let none = EdgeSizes { left: 0, right: 0, top: 0, bottom: 0 };
    assert_eq!(d.content, rect);
    assert_eq!(d.padding, none);
    assert_eq!(d.border, none);
    assert_eq!(d.margin, none);
}

#[test]
fn defaults_are_zero() {
    assert_eq!(Rect::default(), Rect { x: 0, y: 0, width: 0, height: 0 });
    assert_eq!(EdgeSizes::default(), EdgeSizes { left: 0, right: 0, top: 0, bottom: 0 });
    assert_eq!(Dimensions::default(), Dimensions::new(Rect::default()));
}

#[test]
fn padding_box_grows_by_the_padding() {
    assert_eq!(sample().padding_box(), Rect { x: 99, y: 197, width: 303, height: 407 });
}

#[test]
fn border_box_grows_by_the_border() {
    assert_eq!(sample().border_box(), Rect { x: 89, y: 167, width: 333, height: 477 });
}

#[test]
fn margin_box_grows_by_the_margin() {
    assert_eq!(sample().margin_box(), Rect { x: 84, y: 160, width: 344, height: 492 });
}

#[test]
fn boxes_are_nested_with_offsets_of_the_edges() {
    let d = sample();
    let (content, padding, border, margin) =
        (d.content, d.padding_box(), d.border_box(), d.margin_box());
    assert_eq!(content.x - padding.x, d.padding.left);
    assert_eq!(content.y - padding.y, d.padding.top);
    assert_eq!(padding.x - border.x, d.border.left);
    assert_eq!(padding.y - border.y, d.border.top);
    assert_eq!(border.x - margin.x, d.margin.left);
    assert_eq!(border.y - margin.y, d.margin.top);
    for (outer, inner) in [(padding, content), (border, padding), (margin, border)] {
        assert!(outer.x <= inner.x);
        assert!(outer.y <= inner.y);
        assert!(inner.x + inner.width <= outer.x + outer.width);
        assert!(inner.y + inner.height <= outer.y + outer.height);
    }
}

#[test]
fn expanding_by_a_negative_edge_shrinks() {
    let rect = Rect { x: 0, y: 0, width: 10, height: 10 };
    let edge = EdgeSizes { left: -1, right: -2, top: -3, bottom: -4 };
    assert_eq!(rect.expanded_by(edge), Rect { x: 1, y: 3, width: 7, height: 3 });
}

#[test]
fn extent_is_bounded_on_both_sides() {
    assert_eq!(MAX_EXTENT, 1_000_000_000_000);
    assert!(fits_extent(0));
    assert!(fits_extent(MAX_EXTENT));
    assert!(fits_extent(-MAX_EXTENT));
    assert!(!fits_extent(MAX_EXTENT + 1));
    assert!(!fits_extent(-MAX_EXTENT - 1));
    assert!(!fits_extent(i64::MIN));
}

#[test]
fn fits_looks_at_every_number() {
    let mut d = sample();
    assert!(d.fits());
    d.margin.bottom = MAX_EXTENT + 1;
    assert!(!d.fits());
    let mut d = sample();
    d.content.width = -MAX_EXTENT - 1;
    assert!(!d.fits());
    assert!(!d.content.fits());
    assert!(d.padding.fits());
    assert!(SimpleDimensions::new(800, 600).fits());
    assert!(!SimpleDimensions::new(800, MAX_EXTENT + 1).fits());
}

#[test]
fn simple_dimensions_keep_width_and_height() {
    let s = SimpleDimensions::new(800, 600);
    assert_eq!(s, SimpleDimensions { width: 800, height: 600 });
    let s = SimpleDimensions::from_dimension(Rect { x: 5, y: 6, width: 7, height: 8 });
    assert_eq!(s, SimpleDimensions { width: 7, height: 8 });
}

#[test]
fn rect_is_written_with_origin_and_size() {
    let rect = Rect { x: 1, y: -2, width: 300, height: 0 };
    assert_eq!(rect.describe(), "Rect { x: 1, y: -2 } 300 x 0");
}

#[test]
fn edge_sizes_are_written_with_a_trailing_space() {
    let edge = EdgeSizes { left: 1, right: 20, top: -3, bottom: 4 };
    assert_eq!(edge.describe(), "EdgeSizes { left: 1, right: 20, top: -3, bottom: 4 } ");
}

#[test]
fn boxes_need_no_more_than_room_in_the_machine() {
    // Beyond the range of layout, but nothing overflows.
    let d = Dimensions {
        content: Rect { x: 5 * MAX_EXTENT, y: -5 * MAX_EXTENT, width: 1, height: 1 },
        padding: EdgeSizes { left: MAX_EXTENT, right: 0, top: 0, bottom: MAX_EXTENT },
        border: EdgeSizes { left: 0, right: 0, top: 0, bottom: 0 },
        margin: EdgeSizes { left: 0, right: 0, top: 0, bottom: 0 },
    };
    assert!(!d.fits());
    assert_eq!(
        d.margin_box(),
        Rect { x: 4 * MAX_EXTENT, y: -5 * MAX_EXTENT, width: MAX_EXTENT + 1, height: MAX_EXTENT + 1 }
    );
}

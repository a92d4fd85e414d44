use noord::layout::geometry::width::{half, length_or_zero, UsedWidths, WidthStyle};

fn style(width: Option<i32>, margin_left: Option<i32>, margin_right: Option<i32>) -> WidthStyle {
    WidthStyle {
        width,
        margin_left,
        margin_right,
        border_left: 0,
        border_right: 0,
        padding_left: 0,
        padding_right: 0,
    }
}

fn sum(style: &WidthStyle, used: &UsedWidths) -> i64 {
    used.margin_left
        + style.border_left as i64
        + style.padding_left as i64
        + used.width
        + style.padding_right as i64
        + style.border_right as i64
        + used.margin_right
}

#[test]
fn auto_width_takes_the_whole_viewport() {
    let s = style(None, None, None);
    let used = s.resolve(800, 800);
    assert_eq!(used, UsedWidths { width: 800, margin_left: 0, margin_right: 0 });
}

#[test]
fn auto_width_takes_what_the_edges_leave() {
    let s = WidthStyle {
        width: None,
        margin_left: Some(10),
        margin_right: None,
        border_left: 1,
        border_right: 2,
        padding_left: 3,
        padding_right: 4,
    };
    let used = s.resolve(800, 800);
    assert_eq!(used, UsedWidths { width: 780, margin_left: 10, margin_right: 0 });
    assert_eq!(sum(&s, &used), 800);
}

#[test]
fn auto_width_is_zero_when_the_edges_overflow() {
    let s = WidthStyle {
        width: None,
        margin_left: None,
        margin_right: Some(7),
        border_left: 0,
        border_right: 0,
        padding_left: 500,
        padding_right: 500,
    };
    let used = s.resolve(800, 800);
    // total = 1007, underflow = -207: the right margin takes it.
    assert_eq!(used, UsedWidths { width: 0, margin_left: 0, margin_right: -200 });
    assert_eq!(sum(&s, &used), 800);
}

#[test]
fn auto_margins_centre_a_fixed_width() {
    let s = style(Some(400), None, None);
    let used = s.resolve(800, 800);
    assert_eq!(used, UsedWidths { width: 400, margin_left: 200, margin_right: 200 });
    assert_eq!(used.margin_left, (800 - 400) / 2);
}

#[test]
fn centring_counts_borders_and_paddings() {
    let s = WidthStyle {
        width: Some(400),
        margin_left: None,
        margin_right: None,
        border_left: 10,
        border_right: 10,
        padding_left: 40,
        padding_right: 40,
    };
    let used = s.resolve(800, 800);
    assert_eq!(used, UsedWidths { width: 400, margin_left: 150, margin_right: 150 });
    assert_eq!(sum(&s, &used), 800);
}

#[test]
fn odd_underflow_is_halved_downwards() {
    let s = style(Some(401), None, None);
    let used = s.resolve(800, 800);
    assert_eq!(used, UsedWidths { width: 401, margin_left: 199, margin_right: 199 });
    // One pixel short of the viewport.
    assert_eq!(sum(&s, &used), 799);
}

#[test]
fn negative_underflow_is_halved_downwards() {
    // The width fits the containing block but not the narrower viewport.
    let s = style(Some(100), None, None);
    let used = s.resolve(1000, 49);
    assert_eq!(used, UsedWidths { width: 100, margin_left: -26, margin_right: -26 });
    let used = s.resolve(1000, 50);
    assert_eq!(used, UsedWidths { width: 100, margin_left: -25, margin_right: -25 });
}

#[test]
fn auto_right_margin_takes_the_underflow() {
    let s = style(Some(400), Some(10), None);
    let used = s.resolve(800, 800);
    assert_eq!(used, UsedWidths { width: 400, margin_left: 10, margin_right: 390 });
}

#[test]
fn auto_left_margin_takes_the_underflow() {
    let s = style(Some(400), None, Some(10));
    let used = s.resolve(800, 800);
    assert_eq!(used, UsedWidths { width: 400, margin_left: 390, margin_right: 10 });
}

#[test]
fn declared_right_margin_gives_way() {
    let s = style(Some(400), Some(10), Some(20));
    let used = s.resolve(800, 800);
    assert_eq!(used, UsedWidths { width: 400, margin_left: 10, margin_right: 390 });
    assert_eq!(sum(&s, &used), 800);
}

#[test]
fn too_wide_a_box_gets_zero_for_auto_margins() {
    let s = style(Some(900), None, None);
    let used = s.resolve(800, 800);
    assert_eq!(used, UsedWidths { width: 900, margin_left: 0, margin_right: -100 });
    assert_eq!(sum(&s, &used), 800);
}

#[test]
fn too_wide_a_box_keeps_a_declared_left_margin() {
    let s = style(Some(900), Some(30), None);
    let used = s.resolve(800, 800);
    assert_eq!(used, UsedWidths { width: 900, margin_left: 30, margin_right: -130 });
}

#[test]
fn overflow_is_judged_by_the_containing_block() {
    // 500 fits the viewport but not the containing block: auto margins are
    // zero, and the right one then takes the viewport's underflow.
    let s = style(Some(500), None, None);
    let used = s.resolve(400, 800);
    assert_eq!(used, UsedWidths { width: 500, margin_left: 0, margin_right: 300 });
}

#[test]
fn width_equation_holds_in_every_case() {
    let lengths = [None, Some(0), Some(35), Some(-20), Some(1200)];
    for width in lengths {
        for margin_left in lengths {
            for margin_right in lengths {
                let s = WidthStyle {
                    width,
                    margin_left,
                    margin_right,
                    border_left: 3,
                    border_right: 4,
                    padding_left: 5,
                    padding_right: 6,
                };
                let used = s.resolve(800, 800);
                let centred_oddly = width.is_some()
                    && margin_left.is_none()
                    && margin_right.is_none()
                    && used.margin_left == used.margin_right
                    && (800 - 18 - width.unwrap() as i64) % 2 != 0
                    && (18 + width.unwrap() as i64) <= 800;
                if centred_oddly {
                    assert_eq!(sum(&s, &used), 799);
                } else {
                    assert_eq!(sum(&s, &used), 800);
                }
            }
        }
    }
}

#[test]
fn half_rounds_down() {
    assert_eq!(half(0), 0);
    assert_eq!(half(1), 0);
    assert_eq!(half(7), 3);
    assert_eq!(half(8), 4);
    assert_eq!(half(-1), -1);
    assert_eq!(half(-7), -4);
    assert_eq!(half(-8), -4);
    assert_eq!(half(i64::MAX), 4611686018427387903);
    assert_eq!(half(i64::MIN), -4611686018427387904);
    assert_eq!(half(i64::MIN + 1), -4611686018427387904);
}

#[test]
fn auto_counts_as_zero() {
    assert_eq!(length_or_zero(None), 0);
    assert_eq!(length_or_zero(Some(-5)), -5);
    assert_eq!(length_or_zero(Some(i32::MAX)), 2147483647);
}

use blankstop::layout::{menu_position, toast_position};

#[test]
fn menu_is_centred_above_the_click() {
    assert_eq!(menu_position(1000, 900, 0, 0, 1920, 1040), (900, 672));
}

#[test]
fn menu_is_kept_inside_the_work_area() {
    assert_eq!(menu_position(1910, 100, 0, 0, 1920, 1040), (1720, 0));
    assert_eq!(menu_position(10, 900, 0, 0, 1920, 1040), (0, 672));
    assert_eq!(menu_position(50, 50, 0, 0, 100, 100), (-100, -120));
}

#[test]
fn toast_sits_in_the_bottom_right_corner() {
    assert_eq!(toast_position(0, 0, 1920, 1040), (1582, 974));
    assert_eq!(toast_position(-1920, 0, 1920, 1080), (-338, 1014));
}

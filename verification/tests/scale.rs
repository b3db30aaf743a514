use img_viewer::scale::{calc_scale, max_screen_dims, window_size, SCREEN_PERCENT};

#[test]
fn calc_scale_returns_one_when_it_fits() {
    assert_eq!(calc_scale(100, 50), 1);
    assert_eq!(calc_scale(100, 100), 1);
    assert_eq!(calc_scale(0, 0), 1);
    assert_eq!(calc_scale(u32::MAX, u32::MAX), 1);
}

#[test]
fn calc_scale_returns_ceiling_of_ratio() {
    assert_eq!(calc_scale(100, 101), 2);
    assert_eq!(calc_scale(100, 200), 2);
    assert_eq!(calc_scale(100, 201), 3);
    assert_eq!(calc_scale(100, 250), 3);
    assert_eq!(calc_scale(3, 10), 4);
    assert_eq!(calc_scale(1, 7), 7);
    assert_eq!(calc_scale(1, u32::MAX), u32::MAX);
}

#[test]
fn screen_percent_is_ninety() {
    assert_eq!(SCREEN_PERCENT, 90);
}

#[test]
fn max_screen_dims_takes_ninety_percent() {
    assert_eq!(max_screen_dims(1920, 1080), (1728, 972));
    assert_eq!(max_screen_dims(0, 0), (0, 0));
    assert_eq!(max_screen_dims(101, 99), (90, 89));
    assert_eq!(max_screen_dims(u32::MAX, u32::MAX), (3865470565, 3865470565));
}

#[test]
fn window_size_shrinks_by_common_factor() {
    // Twice too wide, exactly fitting in height: both dimensions halve.
    assert_eq!(window_size(200, 100, 100, 100), (100, 50));
    // Fits already: unchanged.
    assert_eq!(window_size(50, 40, 100, 100), (50, 40));
    // Height drives the factor.
    assert_eq!(window_size(100, 300, 100, 100), (33, 100));
}

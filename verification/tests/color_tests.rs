use raytracer::{black, hit_color, scale_channel, Color};

#[test]
fn black_is_opaque() {
    assert_eq!(black(), Color { r: 0, g: 0, b: 0, a: 255 });
}

#[test]
fn scale_channel_rounds_to_the_nearest_level() {
    assert_eq!(scale_channel(0, 1), 0);
    assert_eq!(scale_channel(0, 720), 0);
    assert_eq!(scale_channel(1, 4), 64); // 63.75
    assert_eq!(scale_channel(1, 3), 85); // 85.0
    assert_eq!(scale_channel(2, 3), 170); // 170.0
    assert_eq!(scale_channel(3, 4), 191); // 191.25
    assert_eq!(scale_channel(1, 1280), 0); // 0.199...
    assert_eq!(scale_channel(3, 1280), 1); // 0.597...
    assert_eq!(scale_channel(719, 720), 255); // 254.64...
    assert_eq!(scale_channel(1279, 1280), 255); // 254.80...
    assert_eq!(scale_channel(u32::MAX - 1, u32::MAX), 255);
}

#[test]
fn scale_channel_rounds_a_half_up() {
    assert_eq!(scale_channel(1, 2), 128); // 127.5
    assert_eq!(scale_channel(1, 510), 1); // 0.5
    assert_eq!(scale_channel(3, 170), 5); // 4.5
}

#[test]
fn hit_color_takes_red_from_the_column_and_green_from_the_row() {
    assert_eq!(hit_color(2, 1, 4, 4), Color { r: 128, g: 64, b: 0, a: 255 });
    assert_eq!(hit_color(0, 0, 1280, 720), Color { r: 0, g: 0, b: 0, a: 255 });
    assert_eq!(hit_color(640, 360, 1280, 720), Color { r: 128, g: 128, b: 0, a: 255 });
    assert_eq!(hit_color(1279, 0, 1280, 720), Color { r: 255, g: 0, b: 0, a: 255 });
    assert_eq!(hit_color(0, 719, 1280, 720), Color { r: 0, g: 255, b: 0, a: 255 });
}

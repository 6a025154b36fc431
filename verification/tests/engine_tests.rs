use ledstrip::color::Rgb;
use ledstrip::engine::AnimationEngine;
use ledstrip::engine::FIXTURE_COUNT;
use ledstrip::engine::PRIORITY;
use ledstrip::engine::TICK_MILLIS;
use ledstrip::engine::UNIVERSE;
use ledstrip::gradient::DisplayMode;
use ledstrip::store::GradientStore;

#[test]
fn frame_is_three_bytes_per_fixture() {
    let s = GradientStore::new();
    let mut e = AnimationEngine::new();
    let frame = e.tick(s.gradient(), DisplayMode::Static);
    assert_eq!(frame.len(), 3 * FIXTURE_COUNT);
    assert_eq!(frame.len(), 510);
}

#[test]
fn static_ticks_are_identical() {
    let mut s = GradientStore::new();
    s.replace_gradient("aa00ff", "00ff00").unwrap();
    let mut e = AnimationEngine::new();
    // Scroll a little first so a stale cursor would show.
    e.tick(s.gradient(), DisplayMode::Scrolling);
    e.tick(s.gradient(), DisplayMode::Scrolling);
    let first = e.tick(s.gradient(), DisplayMode::Static);
    let second = e.tick(s.gradient(), DisplayMode::Static);
    assert_eq!(first, second);
    assert_eq!(e.cursor(), 0);
}

#[test]
fn scrolling_ticks_rotate_one_pixel() {
    let mut s = GradientStore::new();
    s.replace_gradient("aa00ff", "00ff00").unwrap();
    let mut e = AnimationEngine::new();
    let mut prev = e.tick(s.gradient(), DisplayMode::Scrolling);
    // Up to the wrap tick, each frame is the previous one rotated right
    // by exactly three bytes.
    for _ in 1..FIXTURE_COUNT {
        let next = e.tick(s.gradient(), DisplayMode::Scrolling);
        let mut expect = prev.clone();
        expect.rotate_right(3);
        assert_eq!(next, expect);
        prev = next;
    }
}

#[test]
fn wrap_tick_repeats_the_frame() {
    // At the wrap of the cursor's cycle the frame does not rotate by a
    // pixel: the full turn and the fresh start both show the base frame.
    let mut s = GradientStore::new();
    s.replace_gradient("aa00ff", "00ff00").unwrap();
    let mut e = AnimationEngine::new();
    let mut last = Vec::new();
    for _ in 0..FIXTURE_COUNT {
        last = e.tick(s.gradient(), DisplayMode::Scrolling);
    }
    assert_eq!(e.cursor(), FIXTURE_COUNT);
    let wrapped = e.tick(s.gradient(), DisplayMode::Scrolling);
    assert_eq!(e.cursor(), 0);
    assert_eq!(wrapped, last);
}

#[test]
fn cursor_returns_after_full_cycle() {
    let s = GradientStore::new();
    let mut e = AnimationEngine::new();
    assert_eq!(e.cursor(), 0);
    for _ in 0..(FIXTURE_COUNT + 1) {
        e.tick(s.gradient(), DisplayMode::Scrolling);
    }
    assert_eq!(e.cursor(), 0);
    // And a shifted starting point comes back to itself as well.
    e.tick(s.gradient(), DisplayMode::Scrolling);
    assert_eq!(e.cursor(), 1);
    for _ in 0..(FIXTURE_COUNT + 1) {
        e.tick(s.gradient(), DisplayMode::Scrolling);
    }
    assert_eq!(e.cursor(), 1);
}

#[test]
fn wire_order_is_blue_red_green() {
    let mut s = GradientStore::new();
    s.replace_uniform("010203").unwrap();
    let mut e = AnimationEngine::new();
    let frame = e.tick(s.gradient(), DisplayMode::Static);
    for p in 0..FIXTURE_COUNT {
        assert_eq!(frame[3 * p], 3); // blue
        assert_eq!(frame[3 * p + 1], 1); // red
        assert_eq!(frame[3 * p + 2], 2); // green
    }
}

#[test]
fn uniform_frame_is_unmoved_by_scrolling() {
    // A solid color is rotation-invariant, whatever the cursor does.
    let mut s = GradientStore::new();
    s.replace_uniform("0a0b0c").unwrap();
    let mut e = AnimationEngine::new();
    let first = e.tick(s.gradient(), DisplayMode::Scrolling);
    let second = e.tick(s.gradient(), DisplayMode::Scrolling);
    assert_eq!(first, second);
}

#[test]
fn sample_points_land_in_the_frame() {
    let mut s = GradientStore::new();
    s.replace_gradient("aa00ff", "00ff00").unwrap();
    let mut e = AnimationEngine::new();
    let frame = e.tick(s.gradient(), DisplayMode::Static);
    // Pixel 0 carries the first stop in blue, red, green order.
    let a = Rgb { r: 0xaa, g: 0x00, b: 0xff };
    assert_eq!(frame[0], a.b);
    assert_eq!(frame[1], a.r);
    assert_eq!(frame[2], a.g);
    // Pixel 85 sits at the middle stop exactly.
    let b = Rgb { r: 0x00, g: 0xff, b: 0x00 };
    assert_eq!(frame[3 * 85], b.b);
    assert_eq!(frame[3 * 85 + 1], b.r);
    assert_eq!(frame[3 * 85 + 2], b.g);
}

#[test]
fn fixed_wire_parameters() {
    assert_eq!(UNIVERSE, 1);
    assert_eq!(PRIORITY, 100);
    assert!((1..=200).contains(&PRIORITY));
    assert_eq!(TICK_MILLIS, 10);
}

use ledstrip::color::rgb_to_hex;
use ledstrip::color::Rgb;
use ledstrip::gradient::DisplayMode;
use ledstrip::gradient::GradientError;
use ledstrip::gradient::GradientSpec;
use ledstrip::store::GradientStore;

#[test]
fn uniform_write_then_midpoint_round_trips() {
    let mut s = GradientStore::new();
    let c = s.replace_uniform("aabbcc").unwrap();
    assert_eq!(c, Rgb { r: 0xaa, g: 0xbb, b: 0xcc });
    assert_eq!(rgb_to_hex(&s.get_midpoint()), "aabbcc");
}

#[test]
fn uniform_round_trip_is_case_insensitive() {
    let mut s = GradientStore::new();
    s.replace_uniform("AABBCC").unwrap();
    assert_eq!(rgb_to_hex(&s.get_midpoint()), "aabbcc");
}

#[test]
fn gradient_write_palindrome_samples() {
    let mut s = GradientStore::new();
    let mid = s.replace_gradient("aa00ff", "00ff00").unwrap();
    assert_eq!(mid, Rgb { r: 0, g: 255, b: 0 });
    let g = s.gradient();
    let a = Rgb { r: 0xaa, g: 0x00, b: 0xff };
    let b = Rgb { r: 0x00, g: 0xff, b: 0x00 };
    assert_eq!(g.sample(0, 170), a);
    assert_eq!(g.sample(170, 170), a);
    assert_eq!(g.sample(85, 170), b);
    assert_eq!(s.get_midpoint(), b);
}

#[test]
fn preview_reports_ends_and_mode() {
    let mut s = GradientStore::new();
    s.replace_gradient("aa00ff", "00ff00").unwrap();
    let (col1, col2, mode) = s.get_preview();
    assert_eq!(rgb_to_hex(&col1), "aa00ff");
    assert_eq!(rgb_to_hex(&col2), "00ff00");
    assert_eq!(mode.name(), "Scrolling");
}

#[test]
fn malformed_uniform_reports_and_keeps_state() {
    let mut s = GradientStore::new();
    s.replace_uniform("112233").unwrap();
    assert_eq!(s.replace_uniform("zzzzzz"), Err(GradientError::Validation));
    assert_eq!(s.replace_uniform("12345"), Err(GradientError::Validation));
    assert_eq!(rgb_to_hex(&s.get_midpoint()), "112233");
}

#[test]
fn malformed_gradient_reports_and_keeps_state() {
    let mut s = GradientStore::new();
    s.replace_uniform("112233").unwrap();
    assert_eq!(s.replace_gradient("aabbcc", "nothex"), Err(GradientError::Validation));
    assert_eq!(s.replace_gradient("nothex", "aabbcc"), Err(GradientError::Validation));
    assert_eq!(rgb_to_hex(&s.get_midpoint()), "112233");
}

#[test]
fn stop_list_of_wrong_size_is_refused() {
    let one = vec![Rgb { r: 1, g: 2, b: 3 }];
    assert!(matches!(GradientSpec::new(one), Err(GradientError::Construction)));
    let four = vec![
        Rgb { r: 1, g: 2, b: 3 },
        Rgb { r: 4, g: 5, b: 6 },
        Rgb { r: 7, g: 8, b: 9 },
        Rgb { r: 10, g: 11, b: 12 },
    ];
    assert!(matches!(GradientSpec::new(four), Err(GradientError::Construction)));
    let two = vec![Rgb { r: 1, g: 2, b: 3 }, Rgb { r: 4, g: 5, b: 6 }];
    assert!(GradientSpec::new(two).is_ok());
}

#[test]
fn serialized_writers_leave_exactly_one_input() {
    let mut s = GradientStore::new();
    let inputs = ["110000", "002200", "000033", "445566", "778899"];
    for h in inputs {
        s.replace_uniform(h).unwrap();
    }
    let shown = rgb_to_hex(&s.get_midpoint());
    assert!(inputs.contains(&shown.as_str()));
    assert_eq!(shown, "778899");
}

#[test]
fn default_state_scrolls_a_palindrome() {
    let s = GradientStore::new();
    let (col1, col2, mode) = s.get_preview();
    assert_eq!(rgb_to_hex(&col1), "ff0000");
    assert_eq!(rgb_to_hex(&col2), "0000ff");
    assert_eq!(mode, DisplayMode::Scrolling);
}

use wio_examples::buttons::{blink_interval, next_interval, toggles_led, Button, INITIAL_INTERVAL_MS};
use wio_examples::geometry::{make_black_rectangle, preset_background, Color565, FilledRect, Point};
use wio_examples::mic_stats::{SampleStats, SAMPLES_PER_REPORT};
use wio_examples::readout::reading_text;

#[test]
fn buttons_select_blink_intervals() {
    assert_eq!(INITIAL_INTERVAL_MS, 200);
    assert_eq!(blink_interval(Button::TopLeft), 100);
    assert_eq!(blink_interval(Button::TopMiddle), 200);
    assert_eq!(blink_interval(Button::Left), 1000);
    assert_eq!(blink_interval(Button::Right), 100);
    assert_eq!(blink_interval(Button::Down), 200);
    assert_eq!(blink_interval(Button::Up), 2000);
    assert_eq!(blink_interval(Button::Click), 3000);
    assert_eq!(next_interval(2000, None), 2000);
    assert_eq!(next_interval(2000, Some(Button::Click)), 3000);
}

#[test]
fn only_top_left_toggles_led() {
    assert!(toggles_led(Button::TopLeft));
    for b in [Button::TopMiddle, Button::Left, Button::Right, Button::Down, Button::Up, Button::Click] {
        assert!(!toggles_led(b));
    }
}

#[test]
fn black_rectangles() {
    let black = Color565 { r: 0, g: 0, b: 0 };
    assert_eq!(
        make_black_rectangle(30, 20, 50, 70),
        FilledRect { top_left: Point { x: 30, y: 20 }, width: 50, height: 70, color: black }
    );
    assert_eq!(
        preset_background(),
        FilledRect { top_left: Point { x: 0, y: 0 }, width: 320, height: 240, color: black }
    );
}

#[test]
fn readings_print_in_decimal() {
    assert_eq!(reading_text(0), "0");
    assert_eq!(reading_text(7), "7");
    assert_eq!(reading_text(1234), "1234");
    assert_eq!(reading_text(4095), "4095");
    assert_eq!(reading_text(u32::MAX), "4294967295");
}

#[test]
fn stats_track_min_and_max() {
    assert_eq!(SAMPLES_PER_REPORT, 83333);
    let mut s = SampleStats::new();
    assert_eq!(s, SampleStats { min: None, max: None });
    for v in [2048u16, 17, 4000, 17, 3000] {
        s.add(v);
    }
    assert_eq!(s, SampleStats { min: Some(17), max: Some(4000) });
}

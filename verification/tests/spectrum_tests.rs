use wio_examples::geometry::{Color565, FilledRect, Point};
use wio_examples::spectrum::{
    bar_color, bar_height, bar_rgb, spectrum_frame, PauseControl, NUMBER_OF_BARS, OFFSET_LEFT,
};

#[test]
fn bar_height_clamps_level() {
    assert_eq!(bar_height(5), 0);
    assert_eq!(bar_height(0), 0);
    assert_eq!(bar_height(-17), 17);
    assert_eq!(bar_height(-240), 240);
    assert_eq!(bar_height(-1000), 240);
    assert_eq!(bar_height(i32::MIN), 240);
    assert_eq!(bar_height(i32::MAX), 0);
}

#[test]
fn bar_colors_follow_the_ramp() {
    assert_eq!(bar_rgb(0), (255, 0, 0));
    assert_eq!(bar_rgb(60), (128, 127, 0));
    assert_eq!(bar_rgb(119), (3, 252, 0));
    // Half height: green wraps from 256 to 0 and blue from -1 to 255.
    assert_eq!(bar_rgb(120), (0, 0, 255));
    assert_eq!(bar_rgb(121), (0, 254, 1));
    assert_eq!(bar_rgb(240), (0, 1, 254));
}

#[test]
fn bar_colors_in_rgb565() {
    assert_eq!(bar_color(0), Color565 { r: 31, g: 0, b: 0 });
    // (128*31+127)/255 = 16, (127*63+127)/255 = 31
    assert_eq!(bar_color(60), Color565 { r: 16, g: 31, b: 0 });
    assert_eq!(bar_color(120), Color565 { r: 0, g: 0, b: 31 });
    // (254*63+127)/255 = 63, (1*31+127)/255 = 0
    assert_eq!(bar_color(121), Color565 { r: 0, g: 63, b: 0 });
}

#[test]
fn frame_erases_previous_marks_and_draws_new_ones() {
    assert_eq!(NUMBER_OF_BARS, 128);
    assert_eq!(OFFSET_LEFT, 31);
    let mut levels = [-240i32; 128];
    levels[0] = -10;
    levels[1] = 3;
    let mut prev = [5u8; 128];
    let rects = spectrum_frame(&levels, &mut prev, false);
    assert_eq!(rects.len(), 256);
    let black = Color565 { r: 0, g: 0, b: 0 };
    assert_eq!(
        rects[0],
        FilledRect { top_left: Point { x: 31, y: 5 }, width: 2, height: 2, color: black }
    );
    assert_eq!(
        rects[1],
        FilledRect { top_left: Point { x: 31, y: 10 }, width: 2, height: 2, color: bar_color(10) }
    );
    assert_eq!(
        rects[3],
        FilledRect { top_left: Point { x: 33, y: 0 }, width: 2, height: 2, color: bar_color(0) }
    );
    assert_eq!(
        rects[255],
        FilledRect { top_left: Point { x: 31 + 254, y: 240 }, width: 2, height: 2, color: bar_color(240) }
    );
    assert_eq!(prev[0], 10);
    assert_eq!(prev[1], 0);
    assert_eq!(prev[127], 240);
    // The next frame erases exactly where this one drew.
    let rects2 = spectrum_frame(&levels, &mut prev, true);
    assert_eq!(rects2[0].top_left, rects[1].top_left);
    assert_eq!(rects2[0].color, black);
    assert_eq!(rects2[1].height, 239);
}

#[test]
fn pause_follows_a_bar_frame() {
    let mut p = PauseControl::new();
    p.on_stop_button(false);
    assert!(!p.bar_mode());
    p.frame_drawn();
    assert!(!p.take_pause());
    p.on_stop_button(true);
    p.on_stop_button(false);
    assert!(p.bar_mode());
    assert!(!p.take_pause());
    p.frame_drawn();
    assert!(p.take_pause());
    assert!(!p.bar_mode());
    assert!(!p.take_pause());
}

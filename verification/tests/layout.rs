use tuner::layout::{
    frequency_row, meter_marker, text_left, FONT_HEIGHT, FONT_WIDTH, FREQUENCY_ROW, MARKER_WIDTH,
    METER_BOTTOM, METER_TOP, NOTE_ROW, PITCH_ROW, SCREEN_HEIGHT, SCREEN_WIDTH, TEXT_CAPACITY,
};

#[test]
fn screen_and_font_sizes() {
    assert_eq!(SCREEN_WIDTH, 320);
    assert_eq!(SCREEN_HEIGHT, 240);
    assert_eq!(FONT_WIDTH, 24);
    assert_eq!(FONT_HEIGHT, 32);
    assert_eq!(TEXT_CAPACITY, 256);
}

#[test]
fn rows_of_the_outputs() {
    assert_eq!((METER_TOP, METER_BOTTOM), (32, 64));
    assert_eq!(NOTE_ROW, 108);
    assert_eq!(FREQUENCY_ROW, 150);
    assert_eq!(PITCH_ROW, 192);
    assert_eq!(frequency_row(0), 150);
    assert_eq!(frequency_row(1), 192);
    assert_eq!(frequency_row(255), 192);
}

#[test]
fn text_ends_at_the_right_edge() {
    assert_eq!(text_left(0), 320);
    // "441.37 Hz"
    assert_eq!(text_left(9), 104);
    // "A / 4"
    assert_eq!(text_left(5), 200);
    assert_eq!(text_left(13), 8);
    assert_eq!(text_left(14), -16);
    assert_eq!(text_left(256), 320 - 256 * 24);
}

#[test]
fn marker_is_ten_pixels_wide() {
    assert_eq!(MARKER_WIDTH, 10);
    assert_eq!(meter_marker(160), (160, 170));
    assert_eq!(meter_marker(-5), (-5, 5));
    assert_eq!(meter_marker(i32::MAX - 10), (i32::MAX - 10, i32::MAX));
    assert_eq!(meter_marker(i32::MIN), (i32::MIN, i32::MIN + 10));
}

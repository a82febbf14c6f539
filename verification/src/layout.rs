//! Where the tuner's outputs go on the screen.

use vstd::prelude::*;

verus! {

/// Width of the screen in pixels.
pub const SCREEN_WIDTH: i32 = 320;

/// Height of the screen in pixels.
pub const SCREEN_HEIGHT: i32 = 240;

/// Width of one character in pixels.
pub const FONT_WIDTH: i32 = 24;

/// Height of one character in pixels.
pub const FONT_HEIGHT: i32 = 32;

/// Most characters that a line of text holds.
pub const TEXT_CAPACITY: usize = 256;

/// Top of the band in which the meter's marker moves.
pub const METER_TOP: i32 = 32;

/// Bottom of the band in which the meter's marker moves.
pub const METER_BOTTOM: i32 = 64;

/// Width of the meter's marker in pixels.
pub const MARKER_WIDTH: i32 = 10;

/// Top of the line that shows the note.
pub const NOTE_ROW: i32 = 108;

/// Top of the line that shows the measured frequency.
pub const FREQUENCY_ROW: i32 = 150;

/// Top of the line that shows the reference pitch.
pub const PITCH_ROW: i32 = 192;

/// Top of the line of the frequency display: that of the measured frequency
/// for `flag` 0, that of the reference pitch for any other.
pub fn frequency_row(flag: u8) -> (y: i32)
    ensures
        y == (if flag == 0 {
            FREQUENCY_ROW
        } else {
            PITCH_ROW
        }),
{
    if flag == 0 {
        FREQUENCY_ROW
    } else {
        PITCH_ROW
    }
}

/// Left edge of a text of `length` characters that ends at the right edge of
/// the screen; negative where the text is wider than the screen.
pub fn text_left(length: usize) -> (left: i32)
    requires
        length <= TEXT_CAPACITY,
    ensures
        left == SCREEN_WIDTH - length * FONT_WIDTH,
{
    SCREEN_WIDTH - (length as i32) * FONT_WIDTH
}

/// Left and right edge of the meter's marker at the offset `diff`.
pub fn meter_marker(diff: i32) -> (edges: (i32, i32))
    requires
        diff <= i32::MAX - MARKER_WIDTH,
    ensures
        edges.0 == diff,
        edges.1 == diff + MARKER_WIDTH,
{
    (diff, diff + MARKER_WIDTH)
}

} // verus!

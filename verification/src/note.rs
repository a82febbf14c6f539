//! Note names: the octave and the pitch class of a note of the twelve-tone
//! scale, counted from 1 for the lowest A.

use vstd::prelude::*;

verus! {

/// Index of the A above middle C, to which the reference pitch belongs.
pub const REFERENCE_NOTE: u32 = 49;

/// Notes in an octave.
pub const NOTES_PER_OCTAVE: u32 = 12;

/// What is added to a note index so that every octave starts at its C.
pub const OCTAVE_SHIFT: u32 = 8;

/// The pitch class of the note `note`: 0 for C up to 11 for B.
pub open spec fn pitch_class(note: u32) -> int {
    (note + OCTAVE_SHIFT) % (NOTES_PER_OCTAVE as int)
}

/// The octave of the note `note`.
pub open spec fn octave(note: u32) -> int {
    (note + OCTAVE_SHIFT) / (NOTES_PER_OCTAVE as int)
}

/// The name of the pitch class `class`.
pub open spec fn pitch_class_name(class: int) -> Seq<char> {
    if class == 0 {
        "C"@
    } else if class == 1 {
        "C#"@
    } else if class == 2 {
        "D"@
    } else if class == 3 {
        "D#"@
    } else if class == 4 {
        "E"@
    } else if class == 5 {
        "F"@
    } else if class == 6 {
        "F#"@
    } else if class == 7 {
        "G"@
    } else if class == 8 {
        "G#"@
    } else if class == 9 {
        "A"@
    } else if class == 10 {
        "A#"@
    } else {
        "B"@
    }
}

/// Name and octave of the note `note`.
pub fn get_note_name(note: u32) -> (r: (&'static str, u32))
    ensures
        r.0@ == pitch_class_name(pitch_class(note)),
        r.1 == octave(note),
{
    let shifted: u64 = note as u64 + OCTAVE_SHIFT as u64;
    let num: u32 = (shifted / NOTES_PER_OCTAVE as u64) as u32;
    let tone: u64 = shifted % NOTES_PER_OCTAVE as u64;
    let name = match tone {
        0 => "C",
        1 => "C#",
        2 => "D",
        3 => "D#",
        4 => "E",
        5 => "F",
        6 => "F#",
        7 => "G",
        8 => "G#",
        9 => "A",
        10 => "A#",
        _ => "B",
    };
    (name, num)
}

} // verus!

use tuner::note::{get_note_name, REFERENCE_NOTE};

#[test]
fn reference_note_is_a_in_the_fourth_octave() {
    assert_eq!(REFERENCE_NOTE, 49);
    assert_eq!(get_note_name(49), ("A", 4));
}

#[test]
fn names_of_one_octave() {
    let names = ["C", "C#", "D", "D#", "E", "F", "F#", "G", "G#", "A", "A#", "B"];
    for (k, name) in names.iter().enumerate() {
        assert_eq!(get_note_name(40 + k as u32), (*name, 4));
    }
}

#[test]
fn octave_changes_at_c() {
    assert_eq!(get_note_name(39), ("B", 3));
    assert_eq!(get_note_name(40), ("C", 4));
    assert_eq!(get_note_name(51), ("B", 4));
    assert_eq!(get_note_name(52), ("C", 5));
}

#[test]
fn lowest_notes() {
    assert_eq!(get_note_name(0), ("G#", 0));
    assert_eq!(get_note_name(1), ("A", 0));
    assert_eq!(get_note_name(3), ("B", 0));
    assert_eq!(get_note_name(4), ("C", 1));
    assert_eq!(get_note_name(88), ("C", 8));
}

#[test]
fn largest_index_does_not_overflow() {
    // 4294967303 = 12 * 357913941 + 11
    assert_eq!(get_note_name(u32::MAX), ("B", 357_913_941));
}

use scaled::notes::{normalize_note, note_index, note_str, ScaleError};
use scaled::render::{fretboard_lines, scale_contains, string_row};
use scaled::scale::{available_modes, get_scale_notes, mode_intervals, scale_from_index};
use scaled::tuning::{get_tuning, tuning_from_index};

const NOTES: [&str; 12] = [
    "C", "C#", "D", "D#", "E", "F", "F#", "G", "G#", "A", "A#", "B",
];

const MODES: [(&str, [u8; 7]); 7] = [
    ("major", [2, 2, 1, 2, 2, 2, 1]),
    ("dorian", [2, 1, 2, 2, 2, 1, 2]),
    ("phrygian", [1, 2, 2, 2, 1, 2, 2]),
    ("lydian", [2, 2, 2, 1, 2, 2, 1]),
    ("mixolydian", [2, 2, 1, 2, 2, 1, 2]),
    ("minor", [2, 1, 2, 2, 1, 2, 2]),
    ("locrian", [1, 2, 2, 1, 2, 2, 2]),
];

fn position(name: &str) -> usize {
    NOTES.iter().position(|n| *n == name).unwrap()
}

#[test]
fn canonical_names_normalize_to_themselves() {
    for n in NOTES {
        assert_eq!(normalize_note(n).unwrap(), n);
        assert_eq!(normalize_note(&n.to_lowercase()).unwrap(), n);
    }
}

#[test]
fn lowercase_sharp_is_upper_cased() {
    assert_eq!(normalize_note("c#").unwrap(), "C#");
    assert_eq!(normalize_note("a").unwrap(), "A");
}

#[test]
fn unknown_note_is_rejected() {
    match normalize_note("H") {
        Err(ScaleError::InvalidNote(s)) => assert_eq!(s, "H"),
        other => panic!("unexpected {:?}", other),
    }
}

#[test]
fn flat_spelling_is_rejected() {
    match normalize_note("Eb") {
        Err(ScaleError::InvalidNote(s)) => assert_eq!(s, "Eb"),
        other => panic!("unexpected {:?}", other),
    }
    assert!(matches!(normalize_note(""), Err(ScaleError::InvalidNote(_))));
    assert!(matches!(normalize_note("C##"), Err(ScaleError::InvalidNote(_))));
}

#[test]
fn note_index_matches_exactly() {
    for (i, n) in NOTES.iter().enumerate() {
        assert_eq!(note_index(n), Some(i));
        assert_eq!(note_str(i), *n);
    }
    assert_eq!(note_index("c"), None);
    assert_eq!(note_index(" C"), None);
}

#[test]
fn c_major_scale() {
    assert_eq!(
        get_scale_notes("C", "major").unwrap(),
        vec!["C", "D", "E", "F", "G", "A", "B"]
    );
}

#[test]
fn c_minor_scale_follows_the_walk() {
    let steps = [2usize, 1, 2, 2, 1, 2, 2];
    let mut expected = Vec::new();
    let mut at = 0usize;
    for s in steps {
        expected.push(NOTES[at]);
        at = (at + s) % 12;
    }
    assert_eq!(expected, vec!["C", "D", "D#", "F", "G", "G#", "A#"]);
    assert_eq!(get_scale_notes("C", "minor").unwrap(), expected);
}

#[test]
fn every_scale_has_the_shape_of_its_mode() {
    for root in NOTES {
        for (mode, steps) in MODES {
            let scale = get_scale_notes(root, mode).unwrap();
            assert_eq!(scale.len(), 7);
            assert_eq!(scale[0], root);
            for k in 0..7 {
                let a = position(scale[k]);
                let b = position(scale[(k + 1) % 7]);
                assert_eq!((a + steps[k] as usize) % 12, b);
            }
            assert_eq!(steps.iter().map(|s| *s as u32).sum::<u32>(), 12);
        }
    }
}

#[test]
fn mode_and_root_are_case_insensitive() {
    assert_eq!(
        get_scale_notes("f#", "DoRiAn").unwrap(),
        vec!["F#", "G#", "A", "B", "C#", "D#", "E"]
    );
    assert_eq!(mode_intervals("major"), Some(vec![2, 2, 1, 2, 2, 2, 1]));
    assert_eq!(mode_intervals("MAJOR"), None);
}

#[test]
fn unknown_mode_lists_every_mode() {
    let err = get_scale_notes("C", "blah").unwrap_err();
    match &err {
        ScaleError::InvalidMode(s) => assert_eq!(s, "blah"),
        other => panic!("unexpected {:?}", other),
    }
    let text = err.message();
    assert_eq!(
        text,
        "Invalid mode: blah. Available modes: major, dorian, phrygian, lydian, mixolydian, minor, locrian"
    );
    for (mode, _) in MODES {
        assert!(text.contains(mode));
    }
}

#[test]
fn root_is_checked_before_mode() {
    match get_scale_notes("H", "blah") {
        Err(ScaleError::InvalidNote(s)) => assert_eq!(s, "H"),
        other => panic!("unexpected {:?}", other),
    }
}

#[test]
fn note_error_message() {
    assert_eq!(
        ScaleError::InvalidNote("Bb".to_string()).message(),
        "Invalid note: Bb"
    );
    assert_eq!(
        available_modes(),
        "major, dorian, phrygian, lydian, mixolydian, minor, locrian"
    );
}

#[test]
fn scale_from_index_walks_the_steps() {
    assert_eq!(
        scale_from_index(9, &vec![2, 1, 2, 2, 1, 2, 2]),
        vec!["A", "B", "C", "D", "E", "F", "G"]
    );
    assert_eq!(scale_from_index(11, &vec![]), Vec::<&str>::new());
}

#[test]
fn standard_e_tuning() {
    assert_eq!(
        get_tuning("e", false).unwrap(),
        vec!["E", "B", "G", "D", "A", "E"]
    );
}

#[test]
fn drop_e_tuning() {
    assert_eq!(
        get_tuning("E", true).unwrap(),
        vec!["F#", "C#", "A", "E", "B", "E"]
    );
    assert_eq!(
        tuning_from_index(2, true),
        vec!["E", "B", "G", "D", "A", "D"]
    );
}

#[test]
fn drop_differs_from_standard_for_every_root() {
    for root in NOTES {
        let drop = get_tuning(root, true).unwrap();
        let standard = get_tuning(root, false).unwrap();
        assert_eq!(drop.len(), 6);
        assert_eq!(standard.len(), 6);
        assert_ne!(drop, standard);
    }
}

#[test]
fn tuning_rejects_unknown_root() {
    match get_tuning("x", false) {
        Err(ScaleError::InvalidNote(s)) => assert_eq!(s, "x"),
        other => panic!("unexpected {:?}", other),
    }
}

#[test]
fn row_marks_scale_notes() {
    let scale = get_scale_notes("C", "major").unwrap();
    assert_eq!(
        string_row(&scale, 4),
        "│  E  |  F  |     |  G  |     |  A  |     |  B  |  C  |     |  D   |      |  E   │"
    );
}

#[test]
fn open_string_always_marked() {
    let scale = get_scale_notes("C", "major").unwrap();
    for open in 0..12 {
        let row = string_row(&scale, open);
        let name = NOTES[open];
        assert!(row.starts_with(&format!("│  {}", name)));
    }
    let row = string_row(&scale, 1);
    assert!(row.starts_with("│  C# |"));
    assert!(!scale_contains(&scale, "C#"));
    assert!(scale_contains(&scale, "C"));
}

#[test]
fn fretboard_has_borders_and_rows() {
    let scale = get_scale_notes("A", "minor").unwrap();
    let tuning = get_tuning("e", false).unwrap();
    let lines = fretboard_lines(&scale, &tuning);
    assert_eq!(lines.len(), 10);
    assert!(lines[0].starts_with('┌'));
    assert_eq!(
        lines[1],
        "│  0  |  1  |  2  |  3  |  4  |  5  |  6  |  7  |  8  |  9  |  10  |  11  |  12  │"
    );
    assert!(lines[9].starts_with('└'));
    let width = lines[0].chars().count();
    for line in &lines {
        assert_eq!(line.chars().count(), width);
    }
    for (k, open) in tuning.iter().enumerate() {
        assert_eq!(lines[3 + k], string_row(&scale, position(open)));
    }
}

#[test]
fn rendering_is_repeatable() {
    let render = || {
        let scale = get_scale_notes("D", "lydian").unwrap();
        let tuning = get_tuning("d", true).unwrap();
        fretboard_lines(&scale, &tuning).join("\n")
    };
    assert_eq!(render(), render());
}

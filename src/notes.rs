//! The chromatic note table, case folding of user input, and the error kinds.
use vstd::prelude::*;
use vstd::string::*;

verus! {

/// The two ways a request can be rejected.
#[derive(Debug)]
pub enum ScaleError {
    /// A note name that is not one of the twelve, after upper-casing; holds the input as given.
    InvalidNote(String),
    /// A mode name that is not one of the seven, after lower-casing; holds the input as given.
    InvalidMode(String),
}

/// Number of pitch classes in the chromatic cycle.
pub const NOTE_COUNT: usize = 12;

/// The canonical name of pitch class `i`, sharps written with `#`.
pub open spec fn note_name(i: int) -> Seq<char> {
    if i == 0 {
        seq!['C']
    } else if i == 1 {
        seq!['C', '#']
    } else if i == 2 {
        seq!['D']
    } else if i == 3 {
        seq!['D', '#']
    } else if i == 4 {
        seq!['E']
    } else if i == 5 {
        seq!['F']
    } else if i == 6 {
        seq!['F', '#']
    } else if i == 7 {
        seq!['G']
    } else if i == 8 {
        seq!['G', '#']
    } else if i == 9 {
        seq!['A']
    } else if i == 10 {
        seq!['A', '#']
    } else {
        seq!['B']
    }
}

/// Whether `s` is one of the twelve canonical names.
pub open spec fn is_note_name(s: Seq<char>) -> bool {
    exists|i: int| 0 <= i < 12 && note_name(i) == s
}

/// The pitch class whose canonical name is `s`, if any.
pub open spec fn note_position(s: Seq<char>) -> Option<int> {
    if is_note_name(s) {
        Some(choose|i: int| 0 <= i < 12 && note_name(i) == s)
    } else {
        None
    }
}

/// What upper-casing makes of a string.
pub uninterp spec fn upper_of(s: Seq<char>) -> Seq<char>;

/// Relies on `str::to_uppercase`: the result depends on the characters alone.
#[verifier::external_body]
fn uppercase(s: &str) -> (r: String)
    ensures
        r@ == upper_of(s@),
{
    s.to_uppercase()
}

/// No two pitch classes share a name.
pub proof fn lemma_note_names_distinct(i: int, j: int)
    requires
        0 <= i < 12,
        0 <= j < 12,
        i != j,
    ensures
        note_name(i) != note_name(j),
{
    let a = note_name(i);
    let b = note_name(j);
    if a.len() == b.len() {
        assert(a[0] != b[0] || a[1] != b[1]);
    }
}

/// Each canonical name resolves to its own pitch class.
pub proof fn lemma_canonical_name_position(i: int)
    requires
        0 <= i < 12,
    ensures
        is_note_name(note_name(i)),
        note_position(note_name(i)) == Some(i),
{
    let s = note_name(i);
    assert(0 <= i < 12 && note_name(i) == s);
    let j = choose|j: int| 0 <= j < 12 && note_name(j) == s;
    if j != i {
        lemma_note_names_distinct(i, j);
    }
}

/// Whether two strings hold the same characters.
pub fn same_text(a: &str, b: &str) -> (r: bool)
    ensures
        r == (a@ == b@),
{
    let n = a.unicode_len();
    if n != b.unicode_len() {
        return false;
    }
    let mut i: usize = 0;
    while i < n
        invariant
            n == a@.len(),
            n == b@.len(),
            0 <= i <= n,
            forall|j: int| 0 <= j < i ==> a@[j] == b@[j],
        decreases n - i,
    {
        if a.get_char(i) != b.get_char(i) {
            return false;
        }
        i += 1;
    }
    assert(a@ =~= b@);
    true
}

/// The canonical name of pitch class `i`.
pub fn note_str(i: usize) -> (r: &'static str)
    requires
        i < 12,
    ensures
        r@ == note_name(i as int),
{
    if i == 0 {
        proof { reveal_strlit("C"); }
        "C"
    } else if i == 1 {
        proof { reveal_strlit("C#"); }
        "C#"
    } else if i == 2 {
        proof { reveal_strlit("D"); }
        "D"
    } else if i == 3 {
        proof { reveal_strlit("D#"); }
        "D#"
    } else if i == 4 {
        proof { reveal_strlit("E"); }
        "E"
    } else if i == 5 {
        proof { reveal_strlit("F"); }
        "F"
    } else if i == 6 {
        proof { reveal_strlit("F#"); }
        "F#"
    } else if i == 7 {
        proof { reveal_strlit("G"); }
        "G"
    } else if i == 8 {
        proof { reveal_strlit("G#"); }
        "G#"
    } else if i == 9 {
        proof { reveal_strlit("A"); }
        "A"
    } else if i == 10 {
        proof { reveal_strlit("A#"); }
        "A#"
    } else {
        proof { reveal_strlit("B"); }
        "B"
    }
}

/// The pitch class of an already upper-cased note name: exact match against the table.
pub fn note_index(upper: &str) -> (r: Option<usize>)
    ensures
        match note_position(upper@) {
            Some(i) => r == Some(i as usize),
            None => r is None,
        },
        r matches Some(i) ==> i < 12,
{
    let mut i: usize = 0;
    while i < NOTE_COUNT
        invariant
            0 <= i <= 12,
            forall|j: int| 0 <= j < i ==> note_name(j) != upper@,
        decreases 12 - i,
    {
        let name = note_str(i);
        if same_text(upper, name) {
            proof { lemma_canonical_name_position(i as int); }
            return Some(i);
        }
        i += 1;
    }
    None
}

/// Upper-cases `note` and returns the canonical name it matches exactly.
pub fn normalize_note(note: &str) -> (r: Result<&'static str, ScaleError>)
    ensures
        r is Ok <==> is_note_name(upper_of(note@)),
        r matches Ok(n) ==> n@ == upper_of(note@),
        r matches Err(e) ==> e matches ScaleError::InvalidNote(s) && s@ == note@,
{
    let upper = uppercase(note);
    match note_index(upper.as_str()) {
        Some(i) => Ok(note_str(i)),
        None => Err(ScaleError::InvalidNote(note.to_owned())),
    }
}

} // verus!

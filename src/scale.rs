//! The mode catalog and the scale engine.
use vstd::prelude::*;
use vstd::arithmetic::div_mod::{lemma_add_mod_noop, lemma_mod_twice};
use vstd::string::*;

use crate::notes::{
    normalize_note, note_index, note_name, note_position, note_str, same_text, upper_of,
    ScaleError,
};

verus! {

/// Number of modes in the catalog.
pub const MODE_COUNT: usize = 7;

/// The lower-case name of mode `k` of the catalog.
pub open spec fn mode_name(k: int) -> Seq<char> {
    if k == 0 {
        seq!['m', 'a', 'j', 'o', 'r']
    } else if k == 1 {
        seq!['d', 'o', 'r', 'i', 'a', 'n']
    } else if k == 2 {
        seq!['p', 'h', 'r', 'y', 'g', 'i', 'a', 'n']
    } else if k == 3 {
        seq!['l', 'y', 'd', 'i', 'a', 'n']
    } else if k == 4 {
        seq!['m', 'i', 'x', 'o', 'l', 'y', 'd', 'i', 'a', 'n']
    } else if k == 5 {
        seq!['m', 'i', 'n', 'o', 'r']
    } else {
        seq!['l', 'o', 'c', 'r', 'i', 'a', 'n']
    }
}

/// The semitone steps of mode `k` of the catalog.
pub open spec fn mode_steps(k: int) -> Seq<u8> {
    if k == 0 {
        seq![2, 2, 1, 2, 2, 2, 1]
    } else if k == 1 {
        seq![2, 1, 2, 2, 2, 1, 2]
    } else if k == 2 {
        seq![1, 2, 2, 2, 1, 2, 2]
    } else if k == 3 {
        seq![2, 2, 2, 1, 2, 2, 1]
    } else if k == 4 {
        seq![2, 2, 1, 2, 2, 1, 2]
    } else if k == 5 {
        seq![2, 1, 2, 2, 1, 2, 2]
    } else {
        seq![1, 2, 2, 1, 2, 2, 2]
    }
}

/// The steps of the mode named `m` (already lower-cased), if the catalog has it.
pub open spec fn mode_pattern(m: Seq<char>) -> Option<Seq<u8>> {
    if exists|k: int| 0 <= k < 7 && mode_name(k) == m {
        Some(mode_steps(choose|k: int| 0 <= k < 7 && mode_name(k) == m))
    } else {
        None
    }
}

/// The sum of the first `k` steps.
pub open spec fn prefix_sum(steps: Seq<u8>, k: int) -> int
    decreases k,
{
    if k <= 0 {
        0
    } else {
        prefix_sum(steps, k - 1) + steps[k - 1]
    }
}

/// The pitch classes of the scale that starts at `root` and walks `steps`: one
/// note per step, the running position advanced after each note is taken.
pub open spec fn scale_positions(root: int, steps: Seq<u8>) -> Seq<int> {
    Seq::new(steps.len(), |k: int| (root + prefix_sum(steps, k)) % 12)
}

/// The names of a sequence of pitch classes.
pub open spec fn names_of(p: Seq<int>) -> Seq<Seq<char>> {
    p.map_values(|i: int| note_name(i))
}

/// The characters of each string in `v`.
pub open spec fn texts(v: Seq<&str>) -> Seq<Seq<char>> {
    v.map_values(|s: &str| s@)
}

/// What lower-casing makes of a string.
pub uninterp spec fn lower_of(s: Seq<char>) -> Seq<char>;

/// Relies on `str::to_lowercase`: the result depends on the characters alone.
#[verifier::external_body]
fn lowercase(s: &str) -> (r: String)
    ensures
        r@ == lower_of(s@),
{
    s.to_lowercase()
}

/// No two modes share a name.
pub proof fn lemma_mode_names_distinct(i: int, j: int)
    requires
        0 <= i < 7,
        0 <= j < 7,
        i != j,
    ensures
        mode_name(i) != mode_name(j),
{
    let a = mode_name(i);
    let b = mode_name(j);
    if a.len() == b.len() {
        assert(a[0] != b[0] || a[1] != b[1] || a[2] != b[2]);
    }
}

/// Each catalog name resolves to its own steps.
pub proof fn lemma_mode_pattern_of_name(k: int)
    requires
        0 <= k < 7,
    ensures
        mode_pattern(mode_name(k)) == Some(mode_steps(k)),
{
    let m = mode_name(k);
    assert(0 <= k < 7 && mode_name(k) == m);
    let j = choose|j: int| 0 <= j < 7 && mode_name(j) == m;
    if j != k {
        lemma_mode_names_distinct(k, j);
    }
}

/// The lower-case name of mode `k`.
pub fn mode_str(k: usize) -> (r: &'static str)
    requires
        k < 7,
    ensures
        r@ == mode_name(k as int),
{
    if k == 0 {
        proof { reveal_strlit("major"); }
        "major"
    } else if k == 1 {
        proof { reveal_strlit("dorian"); }
        "dorian"
    } else if k == 2 {
        proof { reveal_strlit("phrygian"); }
        "phrygian"
    } else if k == 3 {
        proof { reveal_strlit("lydian"); }
        "lydian"
    } else if k == 4 {
        proof { reveal_strlit("mixolydian"); }
        "mixolydian"
    } else if k == 5 {
        proof { reveal_strlit("minor"); }
        "minor"
    } else {
        proof { reveal_strlit("locrian"); }
        "locrian"
    }
}

/// The semitone steps of mode `k`.
pub fn steps_of_mode(k: usize) -> (r: Vec<u8>)
    requires
        k < 7,
    ensures
        r@ == mode_steps(k as int),
{
    let r = if k == 0 {
        vec![2, 2, 1, 2, 2, 2, 1]
    } else if k == 1 {
        vec![2, 1, 2, 2, 2, 1, 2]
    } else if k == 2 {
        vec![1, 2, 2, 2, 1, 2, 2]
    } else if k == 3 {
        vec![2, 2, 2, 1, 2, 2, 1]
    } else if k == 4 {
        vec![2, 2, 1, 2, 2, 1, 2]
    } else if k == 5 {
        vec![2, 1, 2, 2, 1, 2, 2]
    } else {
        vec![1, 2, 2, 1, 2, 2, 2]
    };
    assert(r@ =~= mode_steps(k as int));
    r
}

/// The steps of an already lower-cased mode name: exact match against the catalog.
pub fn mode_intervals(lower: &str) -> (r: Option<Vec<u8>>)
    ensures
        match mode_pattern(lower@) {
            Some(p) => r matches Some(v) && v@ == p,
            None => r is None,
        },
{
    let mut k: usize = 0;
    while k < MODE_COUNT
        invariant
            0 <= k <= 7,
            forall|j: int| 0 <= j < k ==> mode_name(j) != lower@,
        decreases 7 - k,
    {
        if same_text(lower, mode_str(k)) {
            proof { lemma_mode_pattern_of_name(k as int); }
            return Some(steps_of_mode(k));
        }
        k += 1;
    }
    None
}

/// The names of the scale that starts at pitch class `root` and walks `steps`.
pub fn scale_from_index(root: usize, steps: &Vec<u8>) -> (r: Vec<&'static str>)
    requires
        root < 12,
    ensures
        texts(r@) == names_of(scale_positions(root as int, steps@)),
{
    let mut scale: Vec<&'static str> = Vec::new();
    let mut current: usize = root;
    let mut k: usize = 0;
    while k < steps.len()
        invariant
            k <= steps@.len(),
            current < 12,
            current as int == (root + prefix_sum(steps@, k as int)) % 12,
            scale@.len() == k,
            forall|j: int|
                0 <= j < k ==> scale@[j]@ == note_name((root + prefix_sum(steps@, j)) % 12),
        decreases steps@.len() - k,
    {
        scale.push(note_str(current));
        let step = steps[k];
        proof {
            let a = root + prefix_sum(steps@, k as int);
            assert(prefix_sum(steps@, k + 1) == prefix_sum(steps@, k as int) + step);
            lemma_add_mod_noop(a, step as int, 12);
            lemma_mod_twice(a, 12);
        }
        current = (current + step as usize) % 12;
        k += 1;
    }
    assert(texts(scale@) =~= names_of(scale_positions(root as int, steps@)));
    scale
}

/// The scale named by a root note and a mode: the root is upper-cased and matched
/// against the note table first, then the mode is lower-cased and looked up.
pub fn get_scale_notes(root: &str, mode: &str) -> (r: Result<Vec<&'static str>, ScaleError>)
    ensures
        match note_position(upper_of(root@)) {
            None => r matches Err(e) && e matches ScaleError::InvalidNote(s) && s@ == root@,
            Some(i) => match mode_pattern(lower_of(mode@)) {
                None => r matches Err(e) && e matches ScaleError::InvalidMode(s) && s@ == mode@,
                Some(p) => r matches Ok(v) && texts(v@) == names_of(scale_positions(i, p)),
            },
        },
{
    let normalized = match normalize_note(root) {
        Ok(n) => n,
        Err(e) => return Err(e),
    };
    let root_index = match note_index(normalized) {
        Some(i) => i,
        None => return Err(ScaleError::InvalidNote(root.to_owned())),
    };
    let lower = lowercase(mode);
    let steps = match mode_intervals(lower.as_str()) {
        Some(v) => v,
        None => return Err(ScaleError::InvalidMode(mode.to_owned())),
    };
    Ok(scale_from_index(root_index, &steps))
}

/// Consecutive notes of a scale lie one step apart on the cycle.
proof fn lemma_scale_step(root: int, steps: Seq<u8>, j: int)
    requires
        0 <= j < steps.len(),
    ensures
        ((root + prefix_sum(steps, j)) % 12 + steps[j]) % 12 == (root + prefix_sum(steps, j + 1))
            % 12,
{
    let a = root + prefix_sum(steps, j);
    lemma_add_mod_noop(a, steps[j] as int, 12);
    lemma_mod_twice(steps[j] as int, 12);
    lemma_mod_twice(a, 12);
}

/// The steps of every mode of the catalog add up to one octave.
proof fn lemma_mode_octave(k: int)
    requires
        0 <= k < 7,
    ensures
        mode_steps(k).len() == 7,
        prefix_sum(mode_steps(k), 7) == 12,
{
    reveal_with_fuel(prefix_sum, 8);
}

/// Every mode of the catalog, from every root, gives seven pitch classes of the
/// table; consecutive notes, and the last back to the first, lie the mode's
/// steps apart on the cycle, and the steps add up to one octave.
pub proof fn lemma_scale_shape(root: int, k: int)
    requires
        0 <= root < 12,
        0 <= k < 7,
    ensures
        ({
            let steps = mode_steps(k);
            let s = scale_positions(root, steps);
            &&& mode_pattern(mode_name(k)) == Some(steps)
            &&& s.len() == 7
            &&& forall|j: int| 0 <= j < 7 ==> 0 <= #[trigger] s[j] < 12
            &&& forall|j: int| 0 <= j < 6 ==> (#[trigger] s[j] + steps[j]) % 12 == s[j + 1]
            &&& (s[6] + steps[6]) % 12 == s[0]
            &&& prefix_sum(steps, 7) == 12
        }),
{
    lemma_mode_pattern_of_name(k);
    lemma_mode_octave(k);
    let steps = mode_steps(k);
    let s = scale_positions(root, steps);
    assert forall|j: int| 0 <= j < 6 implies (#[trigger] s[j] + steps[j]) % 12 == s[j + 1] by {
        lemma_scale_step(root, steps, j);
    }
    lemma_scale_step(root, steps, 6);
    assert(prefix_sum(steps, 0) == 0);
    vstd::arithmetic::div_mod::lemma_mod_add_multiples_vanish(root, 12);
}

/// The catalog's mode names `0 .. n`, separated by a comma and a space.
pub open spec fn modes_joined(n: int) -> Seq<char>
    decreases n,
{
    if n <= 1 {
        mode_name(0)
    } else {
        modes_joined(n - 1) + seq![',', ' '] + mode_name(n - 1)
    }
}

/// The text shown to the user for an error.
pub open spec fn error_text(e: ScaleError) -> Seq<char> {
    match e {
        ScaleError::InvalidNote(s) => "Invalid note: "@ + s@,
        ScaleError::InvalidMode(s) => "Invalid mode: "@ + s@ + ". Available modes: "@
            + modes_joined(7),
    }
}

/// The names of all modes of the catalog, separated by a comma and a space.
pub fn available_modes() -> (r: String)
    ensures
        r@ == modes_joined(7),
{
    let mut list = String::from_str(mode_str(0));
    let mut k: usize = 1;
    while k < MODE_COUNT
        invariant
            1 <= k <= 7,
            list@ == modes_joined(k as int),
        decreases 7 - k,
    {
        proof { reveal_strlit(", "); }
        list.append(", ");
        list.append(mode_str(k));
        k += 1;
    }
    list
}

impl ScaleError {
    /// The text shown to the user: the rejected input, and for a mode the
    /// names that would have been accepted.
    pub fn message(&self) -> (r: String)
        ensures
            r@ == error_text(*self),
    {
        match self {
            ScaleError::InvalidNote(s) => {
                let mut text = String::from_str("Invalid note: ");
                text.append(s.as_str());
                text
            },
            ScaleError::InvalidMode(s) => {
                let mut text = String::from_str("Invalid mode: ");
                text.append(s.as_str());
                text.append(". Available modes: ");
                let list = available_modes();
                text.append(list.as_str());
                text
            },
        }
    }
}

/// Where mode `k` ends in the joined list.
pub open spec fn mode_list_end(k: int) -> int {
    modes_joined(k + 1).len() as int
}

/// Mode `k` keeps its place in every longer joined list.
proof fn lemma_mode_in_joined(k: int, n: int)
    requires
        0 <= k < n,
    ensures
        modes_joined(n).len() >= mode_list_end(k),
        mode_list_end(k) >= mode_name(k).len(),
        modes_joined(n).subrange(mode_list_end(k) - mode_name(k).len(), mode_list_end(k))
            == mode_name(k),
    decreases n,
{
    let e = mode_list_end(k);
    let b = e - mode_name(k).len();
    if n == k + 1 {
        if k == 0 {
            assert(modes_joined(1).subrange(b, e) =~= mode_name(0));
        } else {
            assert(modes_joined(n).subrange(b, e) =~= mode_name(k));
        }
    } else {
        lemma_mode_in_joined(k, n - 1);
        let a = modes_joined(n - 1);
        assert(modes_joined(n) == a + seq![',', ' '] + mode_name(n - 1));
        assert(modes_joined(n).subrange(b, e) =~= a.subrange(b, e));
    }
}

/// The message of a rejected mode names every mode of the catalog.
pub proof fn lemma_invalid_mode_lists_modes(s: String, k: int)
    requires
        0 <= k < 7,
    ensures
        exists|at: int|
            0 <= at && at + mode_name(k).len() <= error_text(ScaleError::InvalidMode(s)).len()
                && #[trigger] error_text(ScaleError::InvalidMode(s)).subrange(
                at,
                at + mode_name(k).len(),
            ) == mode_name(k),
{
    lemma_mode_in_joined(k, 7);
    let head = "Invalid mode: "@ + s@ + ". Available modes: "@;
    let text = error_text(ScaleError::InvalidMode(s));
    let at = head.len() + mode_list_end(k) - mode_name(k).len();
    assert(text == head + modes_joined(7));
    assert(text.subrange(at, at + mode_name(k).len()) =~= modes_joined(7).subrange(
        mode_list_end(k) - mode_name(k).len(),
        mode_list_end(k),
    ));
}

} // verus!

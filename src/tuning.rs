//! The tuning engine: the open-string notes of a six-string guitar.
use vstd::prelude::*;

use crate::notes::{normalize_note, note_index, note_position, note_str, upper_of, ScaleError};
use crate::scale::{names_of, texts};

verus! {

/// Number of strings.
pub const STRING_COUNT: usize = 6;

/// Semitones above the tuning root of each string, lowest string first.
pub open spec fn tuning_offsets(drop: bool) -> Seq<int> {
    if drop {
        seq![0, 7, 12, 17, 21, 26]
    } else {
        seq![0, 5, 10, 15, 19, 24]
    }
}

/// The open-string pitch classes from the tuning root `root`, highest string first.
pub open spec fn tuning_positions(root: int, drop: bool) -> Seq<int> {
    Seq::new(6, |k: int| (root + tuning_offsets(drop)[5 - k]) % 12)
}

/// The semitone offset of string `k` (lowest first) above the tuning root.
pub fn tuning_offset(drop: bool, k: usize) -> (r: usize)
    requires
        k < 6,
    ensures
        r as int == tuning_offsets(drop)[k as int],
{
    let offsets: [usize; 6] = if drop {
        [0, 7, 12, 17, 21, 26]
    } else {
        [0, 5, 10, 15, 19, 24]
    };
    offsets[k]
}

/// The open-string notes from the tuning root pitch class `root`, highest string first.
pub fn tuning_from_index(root: usize, drop: bool) -> (r: Vec<&'static str>)
    requires
        root < 12,
    ensures
        texts(r@) == names_of(tuning_positions(root as int, drop)),
{
    let mut strings: Vec<&'static str> = Vec::new();
    let mut k: usize = 0;
    while k < STRING_COUNT
        invariant
            k <= 6,
            root < 12,
            strings@.len() == k,
            forall|j: int|
                0 <= j < k ==> #[trigger] texts(strings@)[j] == names_of(
                    tuning_positions(root as int, drop),
                )[j],
        decreases 6 - k,
    {
        let offset = tuning_offset(drop, STRING_COUNT - 1 - k);
        let ghost before = strings@;
        strings.push(note_str((root + offset) % 12));
        proof {
            assert forall|j: int| 0 <= j < k + 1 implies #[trigger] texts(strings@)[j]
                == names_of(tuning_positions(root as int, drop))[j] by {
                if j < k {
                    assert(strings@[j] == before[j]);
                    assert(texts(before)[j] == before[j]@);
                } else {
                    assert(tuning_positions(root as int, drop)[j] == (root + offset) % 12);
                }
                assert(texts(strings@)[j] == strings@[j]@);
            }
        }
        k += 1;
    }
    assert(texts(strings@) =~= names_of(tuning_positions(root as int, drop)));
    strings
}

/// The open-string notes of the tuning named by its root note and the drop
/// flag, highest string first; the root is upper-cased and matched against the
/// note table.
pub fn get_tuning(tuning_root: &str, drop: bool) -> (r: Result<Vec<&'static str>, ScaleError>)
    ensures
        match note_position(upper_of(tuning_root@)) {
            None => r matches Err(e) && e matches ScaleError::InvalidNote(s) && s@
                == tuning_root@,
            Some(i) => r matches Ok(v) && texts(v@) == names_of(tuning_positions(i, drop)),
        },
{
    let normalized = match normalize_note(tuning_root) {
        Ok(n) => n,
        Err(e) => return Err(e),
    };
    let root_index = match note_index(normalized) {
        Some(i) => i,
        None => return Err(ScaleError::InvalidNote(tuning_root.to_owned())),
    };
    Ok(tuning_from_index(root_index, drop))
}

/// From every root, the drop tuning differs from the standard one: the
/// highest string of the drop tuning lies two semitones above that of the
/// standard one.
pub proof fn lemma_drop_differs(root: int)
    requires
        0 <= root < 12,
    ensures
        tuning_positions(root, true)[0] == (tuning_positions(root, false)[0] + 2) % 12,
        tuning_positions(root, true) != tuning_positions(root, false),
        names_of(tuning_positions(root, true)) != names_of(tuning_positions(root, false)),
{
    let d = tuning_positions(root, true);
    let s = tuning_positions(root, false);
    assert(d[0] == (root + 26) % 12);
    assert(s[0] == (root + 24) % 12);
    assert(d[0] != s[0]);
    crate::notes::lemma_note_names_distinct(d[0], s[0]);
    assert(names_of(d)[0] != names_of(s)[0]);
}

} // verus!

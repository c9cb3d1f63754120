//! The fretboard diagram: one text row per string, frets 0 to 12.
use vstd::prelude::*;
use vstd::string::*;

use crate::notes::{is_note_name, note_index, note_name, note_position, note_str};
use crate::scale::texts;

verus! {

/// The highest fret shown.
pub const LAST_FRET: usize = 12;

/// The line above the diagram.
pub open spec fn top_border() -> Seq<char> {
    "┌────────────────────────────────────────────────────────────────────────────────┐"@
}

/// The line that numbers the frets.
pub open spec fn fret_header() -> Seq<char> {
    "│  0  |  1  |  2  |  3  |  4  |  5  |  6  |  7  |  8  |  9  |  10  |  11  |  12  │"@
}

/// The line between the fret numbers and the strings.
pub open spec fn header_rule() -> Seq<char> {
    "│────────────────────────────────────────────────────────────────────────────────│"@
}

/// The line below the diagram.
pub open spec fn bottom_border() -> Seq<char> {
    "└────────────────────────────────────────────────────────────────────────────────┘"@
}

/// Whether the cell at `fret` of the string tuned to `open` shows its note:
/// always on the open string, elsewhere when the note belongs to the scale.
pub open spec fn marked(scale: Seq<Seq<char>>, open: int, fret: int) -> bool {
    fret == 0 || scale.contains(note_name((open + fret) % 12))
}

/// The text of the cell at `fret` of the string tuned to `open`, its right
/// separator included; every cell of a fret has the same width.
pub open spec fn cell_text(scale: Seq<Seq<char>>, open: int, fret: int) -> Seq<char> {
    let note = note_name((open + fret) % 12);
    let body = if marked(scale, open, fret) {
        note + seq![' '] + (if note.len() == 1 {
            seq![' ']
        } else {
            Seq::<char>::empty()
        })
    } else {
        seq![' ', ' ', ' ']
    };
    seq![' ', ' '] + body + (if fret > 9 {
        seq![' ']
    } else {
        Seq::<char>::empty()
    }) + (if fret == 12 {
        seq!['│']
    } else {
        seq!['|']
    })
}

/// The cells of frets `0 .. n`, in order.
pub open spec fn cells_upto(scale: Seq<Seq<char>>, open: int, n: int) -> Seq<char>
    decreases n,
{
    if n <= 0 {
        Seq::<char>::empty()
    } else {
        cells_upto(scale, open, n - 1) + cell_text(scale, open, n - 1)
    }
}

/// The row of the string tuned to `open`.
pub open spec fn row_text(scale: Seq<Seq<char>>, open: int) -> Seq<char> {
    seq!['│'] + cells_upto(scale, open, 13)
}

/// The pitch class of a canonical name, 0 for anything else.
pub open spec fn position_or_zero(n: Seq<char>) -> int {
    match note_position(n) {
        Some(i) => i,
        None => 0,
    }
}

/// The whole diagram, line by line, for the scale `scale` and the strings
/// `strings` (top row first).
pub open spec fn fretboard_text(scale: Seq<Seq<char>>, strings: Seq<Seq<char>>) -> Seq<
    Seq<char>,
> {
    seq![top_border(), fret_header(), header_rule()] + Seq::new(
        strings.len(),
        |k: int| row_text(scale, position_or_zero(strings[k])),
    ) + seq![bottom_border()]
}

/// Whether `note` is one of the names in `scale`.
pub fn scale_contains(scale: &Vec<&str>, note: &str) -> (r: bool)
    ensures
        r == texts(scale@).contains(note@),
{
    let mut k: usize = 0;
    while k < scale.len()
        invariant
            k <= scale@.len(),
            forall|j: int| 0 <= j < k ==> scale@[j]@ != note@,
        decreases scale@.len() - k,
    {
        if crate::notes::same_text(scale[k], note) {
            assert(texts(scale@)[k as int] == note@);
            return true;
        }
        k += 1;
    }
    assert forall|j: int| 0 <= j < texts(scale@).len() implies texts(scale@)[j] != note@ by {
        assert(texts(scale@)[j] == scale@[j]@);
    }
    false
}

/// The row of the diagram for the string tuned to pitch class `open`.
pub fn string_row(scale: &Vec<&str>, open: usize) -> (r: String)
    requires
        open < 12,
    ensures
        r@ == row_text(texts(scale@), open as int),
{
    let ghost sc = texts(scale@);
    proof {
        reveal_strlit("│");
    }
    let mut row = String::from_str("│");
    let mut fret: usize = 0;
    while fret <= LAST_FRET
        invariant
            open < 12,
            fret <= 13,
            sc == texts(scale@),
            row@ == seq!['│'] + cells_upto(sc, open as int, fret as int),
        decreases 13 - fret,
    {
        proof {
            reveal_strlit("│");
            reveal_strlit("  ");
            reveal_strlit(" ");
            reveal_strlit("   ");
            reveal_strlit("|");
        }
        let note = note_str((open + fret) % 12);
        let ghost name = note@;
        let mut cell = String::from_str("  ");
        let shown = fret == 0 || scale_contains(scale, note);
        assert(shown == marked(sc, open as int, fret as int));
        let mut body = String::new();
        if shown {
            body.append(note);
            body.append(" ");
            if note.unicode_len() == 1 {
                body.append(" ");
            }
            assert(body@ =~= name + seq![' '] + (if name.len() == 1 {
                seq![' ']
            } else {
                Seq::<char>::empty()
            }));
        } else {
            body.append("   ");
        }
        cell.append(body.as_str());
        if fret > 9 {
            cell.append(" ");
        }
        if fret == LAST_FRET {
            cell.append("│");
        } else {
            cell.append("|");
        }
        assert(cell@ =~= cell_text(sc, open as int, fret as int));
        let ghost before = row@;
        row.append(cell.as_str());
        assert(row@ =~= seq!['│'] + cells_upto(sc, open as int, fret as int + 1));
        fret += 1;
    }
    row
}

/// The lines of the diagram for the scale `scale` and the open strings
/// `strings`, top row first.
pub fn fretboard_lines(scale: &Vec<&str>, strings: &Vec<&str>) -> (r: Vec<String>)
    requires
        forall|k: int| 0 <= k < strings@.len() ==> is_note_name(#[trigger] strings@[k]@),
    ensures
        r@.len() == strings@.len() + 4,
        forall|k: int| 0 <= k < r@.len() ==> #[trigger] r@[k]@ == fretboard_text(
            texts(scale@),
            texts(strings@),
        )[k],
{
    let ghost sc = texts(scale@);
    let ghost want = fretboard_text(sc, texts(strings@));
    let mut lines: Vec<String> = Vec::new();
    lines.push(
        String::from_str(
            "┌────────────────────────────────────────────────────────────────────────────────┐",
        ),
    );
    lines.push(
        String::from_str(
            "│  0  |  1  |  2  |  3  |  4  |  5  |  6  |  7  |  8  |  9  |  10  |  11  |  12  │",
        ),
    );
    lines.push(
        String::from_str(
            "│────────────────────────────────────────────────────────────────────────────────│",
        ),
    );
    let mut k: usize = 0;
    while k < strings.len()
        invariant
            k <= strings@.len(),
            sc == texts(scale@),
            want == fretboard_text(sc, texts(strings@)),
            forall|j: int| 0 <= j < strings@.len() ==> is_note_name(#[trigger] strings@[j]@),
            lines@.len() == k + 3,
            forall|j: int| 0 <= j < k + 3 ==> #[trigger] lines@[j]@ == want[j],
        decreases strings@.len() - k,
    {
        let open = match note_index(strings[k]) {
            Some(i) => i,
            None => 0,
        };
        let row = string_row(scale, open);
        proof {
            assert(texts(strings@)[k as int] == strings@[k as int]@);
            assert(row@ == want[k + 3]);
        }
        lines.push(row);
        k += 1;
    }
    lines.push(
        String::from_str(
            "└────────────────────────────────────────────────────────────────────────────────┘",
        ),
    );
    lines
}

/// Every row of the diagram begins with the open-string note, whether or not
/// it belongs to the scale.
pub proof fn lemma_open_string_marked(scale: Seq<Seq<char>>, open: int)
    requires
        0 <= open < 12,
    ensures
        marked(scale, open, 0),
        row_text(scale, open).subrange(3, 3 + note_name(open).len() as int) == note_name(open),
{
    let row = row_text(scale, open);
    let name = note_name(open);
    reveal_with_fuel(cells_upto, 14);
    lemma_row_prefix(scale, open, 13);
    let c0 = cell_text(scale, open, 0);
    assert((open + 0) % 12 == open);
    assert(c0.subrange(2, 2 + name.len() as int) =~= name);
    assert(row.subrange(3, 3 + name.len() as int) =~= c0.subrange(2, 2 + name.len() as int));
}

/// The first cell stands at the start of every prefix of cells.
proof fn lemma_row_prefix(scale: Seq<Seq<char>>, open: int, n: int)
    requires
        1 <= n,
    ensures
        cells_upto(scale, open, n).len() >= cell_text(scale, open, 0).len(),
        cells_upto(scale, open, n).subrange(0, cell_text(scale, open, 0).len() as int)
            == cell_text(scale, open, 0),
    decreases n,
{
    if n == 1 {
        assert(cells_upto(scale, open, 0) =~= Seq::<char>::empty());
        assert(cells_upto(scale, open, 1) =~= cell_text(scale, open, 0));
    } else {
        lemma_row_prefix(scale, open, n - 1);
        let a = cells_upto(scale, open, n - 1);
        let b = cell_text(scale, open, n - 1);
        let len0 = cell_text(scale, open, 0).len() as int;
        assert((a + b).subrange(0, len0) =~= a.subrange(0, len0));
    }
}

/// The diagram is a function of the scale and the strings alone: two
/// renderings of the same inputs are identical line for line.
pub proof fn lemma_rendering_repeatable(
    scale: Seq<Seq<char>>,
    strings: Seq<Seq<char>>,
    first: Seq<Seq<char>>,
    second: Seq<Seq<char>>,
)
    requires
        first == fretboard_text(scale, strings),
        second == fretboard_text(scale, strings),
    ensures
        first == second,
{
}

} // verus!

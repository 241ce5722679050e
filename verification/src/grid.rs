//! Boards as text: eight lines of eight cells, one line for each rank.

use vstd::prelude::*;

verus! {

/// The character at place `p` of the picture of `cells`. A line holds the
/// eight cells of one rank, from the a-file on, each followed by a space,
/// and ends in a line break. Where `top_down` holds, the first line is the
/// eighth rank; otherwise it is the first rank.
pub open spec fn grid_char(cells: Seq<char>, top_down: bool, p: int) -> char {
    let row = p / 17;
    let col = p % 17;
    let rank = if top_down {
        7 - row
    } else {
        row
    };
    if col == 16 {
        '\n'
    } else if col % 2 == 1 {
        ' '
    } else {
        cells[8 * rank + col / 2]
    }
}

/// The picture of the 64 `cells`, which are given by the index of their
/// square: eight lines of seventeen characters.
pub open spec fn grid_text(cells: Seq<char>, top_down: bool) -> Seq<char> {
    Seq::new(136, |p: int| grid_char(cells, top_down, p))
}

/// The picture of the 64 `cells`, which are given by the index of their
/// square.
pub fn render_grid(cells: &Vec<char>, top_down: bool) -> (r: Vec<char>)
    requires
        cells@.len() == 64,
    ensures
        r@ == grid_text(cells@, top_down),
{
    let mut out: Vec<char> = Vec::new();
    let mut row: usize = 0;
    while row < 8
        invariant
            row <= 8,
            cells@.len() == 64,
            out@.len() == 17 * row,
            forall|p: int| 0 <= p < out@.len() ==> out@[p] == grid_char(cells@, top_down, p),
        decreases 8 - row,
    {
        let rank: usize = if top_down {
            7 - row
        } else {
            row
        };
        let mut file: usize = 0;
        while file < 8
            invariant
                row < 8,
                file <= 8,
                rank == if top_down { 7 - row } else { row as int },
                cells@.len() == 64,
                out@.len() == 17 * row + 2 * file,
                forall|p: int| 0 <= p < out@.len() ==> out@[p] == grid_char(cells@, top_down, p),
            decreases 8 - file,
        {
            out.push(cells[8 * rank + file]);
            out.push(' ');
            file = file + 1;
        }
        out.push('\n');
        row = row + 1;
    }
    assert(out@ =~= grid_text(cells@, top_down));
    out
}

} // verus!

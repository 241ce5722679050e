//! Which position strings can be handed to the reader of positions of the
//! `chess` crate. The reader cuts the string at its spaces and refuses it
//! unless it has four parts. It takes the first as the placement, which it
//! follows square by square from a8, and the second as the side to move.
//! It refuses a character or a side that it does not know. With anything
//! else it goes on, and then it must find a king of the side to move on
//! the board, and no more than sixteen pieces of either side, for which
//! alone its move lists have room.

use vstd::prelude::*;

verus! {

/// The letter of a white piece.
pub open spec fn is_white_piece(c: char) -> bool {
    c == 'P' || c == 'N' || c == 'B' || c == 'R' || c == 'Q' || c == 'K'
}

/// The letter of a black piece.
pub open spec fn is_black_piece(c: char) -> bool {
    c == 'p' || c == 'n' || c == 'b' || c == 'r' || c == 'q' || c == 'k'
}

/// A digit that stands for one to eight empty squares.
pub open spec fn is_gap(c: char) -> bool {
    '1' <= c <= '8'
}

/// The least index from `i` on at which `s` holds a space; the length of
/// `s` if there is none.
pub open spec fn next_space(s: Seq<char>, i: int) -> int
    decreases s.len() - i,
{
    if i >= s.len() {
        s.len() as int
    } else if s[i] == ' ' {
        i
    } else {
        next_space(s, i + 1)
    }
}

/// A board without pieces: 64 cells, each a `.`.
pub open spec fn blank() -> Seq<char> {
    Seq::new(64, |i: int| '.')
}

/// The board that the reader has when it has followed the placement `p`
/// from index `i` to its end, if it stands at `rank` and `file` with the
/// pieces of `cells` on the board. A cell holds the letter of its piece, by
/// the index of its square. A `/` goes to the a-file of the rank below, and
/// from the first rank to the eighth. A digit goes that many files on, and
/// a piece is written and goes one file on; past the h-file both go on
/// from the a-file of the same rank. A piece that is written on an occupied
/// square takes its place. `None` where the reader meets a character that
/// it does not know.
pub open spec fn placed_from(p: Seq<char>, i: int, rank: int, file: int, cells: Seq<char>) -> Option<
    Seq<char>,
>
    decreases p.len() - i,
{
    if i >= p.len() {
        Some(cells)
    } else if p[i] == '/' {
        placed_from(p, i + 1, (rank + 7) % 8, 0, cells)
    } else if is_gap(p[i]) {
        placed_from(p, i + 1, rank, (file + (p[i] as u32 - '0' as u32)) % 8, cells)
    } else if is_white_piece(p[i]) || is_black_piece(p[i]) {
        placed_from(p, i + 1, rank, (file + 1) % 8, cells.update(8 * rank + file, p[i]))
    } else {
        None
    }
}

/// The board that the reader has when it has followed the placement `p`,
/// which it does from a8 on an empty board; `None` where it meets a
/// character that it does not know.
pub open spec fn placed(p: Seq<char>) -> Option<Seq<char>> {
    placed_from(p, 0, 7, 0, blank())
}

/// The number of white pieces in `cells`.
pub open spec fn count_white(cells: Seq<char>) -> nat
    decreases cells.len(),
{
    if cells.len() == 0 {
        0
    } else {
        count_white(cells.drop_last()) + if is_white_piece(cells.last()) { 1nat } else { 0nat }
    }
}

/// The number of black pieces in `cells`.
pub open spec fn count_black(cells: Seq<char>) -> nat
    decreases cells.len(),
{
    if cells.len() == 0 {
        0
    } else {
        count_black(cells.drop_last()) + if is_black_piece(cells.last()) { 1nat } else { 0nat }
    }
}

/// The letter of the king of the side that `side` names: `w` or `W` for
/// White, `b` or `B` for Black; `None` for a side that the reader does not
/// know.
pub open spec fn king_of(side: Seq<char>) -> Option<char> {
    if side == seq!['w'] || side == seq!['W'] {
        Some('K')
    } else if side == seq!['b'] || side == seq!['B'] {
        Some('k')
    } else {
        None
    }
}

/// The board has a king with the letter `king`, and at most sixteen pieces
/// of either side.
pub open spec fn playable(cells: Seq<char>, king: char) -> bool {
    cells.contains(king) && count_white(cells) <= 16 && count_black(cells) <= 16
}

/// The position string can be handed to the reader of positions. That is
/// so where the reader refuses it before it looks at the board: it has
/// fewer than three spaces, or a character of the placement or the side to
/// move is unknown to the reader. Where the reader goes on, the board that
/// it has then must hold a king of the side to move and at most sixteen
/// pieces of either side.
pub open spec fn readable(text: Seq<char>) -> bool {
    let a = next_space(text, 0);
    let b = next_space(text, a + 1);
    let c = next_space(text, b + 1);
    c < text.len() ==> match (placed(text.subrange(0, a)), king_of(text.subrange(a + 1, b))) {
        (Some(cells), Some(king)) => playable(cells, king),
        _ => true,
    }
}

/// `next_space` gives an index from `i` to the length, at which a space
/// stands unless it is the length.
pub proof fn lemma_next_space(s: Seq<char>, i: int)
    requires
        0 <= i,
    ensures
        i <= next_space(s, i) || next_space(s, i) == s.len(),
        next_space(s, i) <= s.len() || next_space(s, i) == i,
        i <= s.len() ==> i <= next_space(s, i) <= s.len(),
        next_space(s, i) < s.len() ==> s[next_space(s, i)] == ' ',
    decreases s.len() - i,
{
    if i < s.len() && s[i] != ' ' {
        lemma_next_space(s, i + 1);
    }
}

/// The index of the first space of `text` from `from` on; the length of
/// `text` if there is none.
fn find_space(text: &Vec<char>, from: usize) -> (r: usize)
    requires
        from <= text@.len(),
    ensures
        r == next_space(text@, from as int),
        from <= r <= text@.len(),
{
    let n = text.len();
    let mut i = from;
    while i < n && text[i] != ' '
        invariant
            n == text@.len(),
            from <= i <= n,
            next_space(text@, from as int) == next_space(text@, i as int),
        decreases n - i,
    {
        i = i + 1;
    }
    i
}

/// Whether `c` is the letter of a white piece.
fn white_piece(c: char) -> (r: bool)
    ensures
        r == is_white_piece(c),
{
    c == 'P' || c == 'N' || c == 'B' || c == 'R' || c == 'Q' || c == 'K'
}

/// Whether `c` is the letter of a black piece.
fn black_piece(c: char) -> (r: bool)
    ensures
        r == is_black_piece(c),
{
    c == 'p' || c == 'n' || c == 'b' || c == 'r' || c == 'q' || c == 'k'
}

/// The board that the reader has when it has followed the first `end`
/// characters of `text` as a placement.
fn place(text: &Vec<char>, end: usize) -> (r: Option<Vec<char>>)
    requires
        end <= text@.len(),
    ensures
        match r {
            Some(cells) => placed(text@.subrange(0, end as int)) == Some(cells@) && cells@.len()
                == 64,
            None => placed(text@.subrange(0, end as int)) is None,
        },
{
    let ghost p = text@.subrange(0, end as int);
    let mut cells: Vec<char> = Vec::new();
    let mut k: usize = 0;
    while k < 64
        invariant
            k <= 64,
            cells@.len() == k,
            forall|j: int| 0 <= j < k ==> cells@[j] == '.',
        decreases 64 - k,
    {
        cells.push('.');
        k = k + 1;
    }
    assert(cells@ =~= blank());
    let mut rank: u8 = 7;
    let mut file: u8 = 0;
    let mut i: usize = 0;
    while i < end
        invariant
            end <= text@.len(),
            p == text@.subrange(0, end as int),
            i <= end,
            rank < 8,
            file < 8,
            cells@.len() == 64,
            placed(p) == placed_from(p, i as int, rank as int, file as int, cells@),
        decreases end - i,
    {
        let ch = text[i];
        assert(p[i as int] == ch);
        if ch == '/' {
            rank = (rank + 7) % 8;
            file = 0;
        } else if '1' <= ch && ch <= '8' {
            let width: u8 = ((ch as u32) - ('0' as u32)) as u8;
            file = (file + width) % 8;
        } else if white_piece(ch) || black_piece(ch) {
            let square: usize = (8 * rank + file) as usize;
            cells.set(square, ch);
            file = (file + 1) % 8;
        } else {
            return None;
        }
        i = i + 1;
    }
    Some(cells)
}

/// The letter of the king of the side that the characters of `text` from
/// `from` to `to` name.
fn king_letter(text: &Vec<char>, from: usize, to: usize) -> (r: Option<char>)
    requires
        from <= to <= text@.len(),
    ensures
        r == king_of(text@.subrange(from as int, to as int)),
{
    let ghost side = text@.subrange(from as int, to as int);
    if to - from == 1 {
        let s = text[from];
        assert(side =~= seq![s]);
        proof {
            lemma_single(s, 'w');
            lemma_single(s, 'W');
            lemma_single(s, 'b');
            lemma_single(s, 'B');
        }
        if s == 'w' || s == 'W' {
            Some('K')
        } else if s == 'b' || s == 'B' {
            Some('k')
        } else {
            None
        }
    } else {
        assert(side.len() != 1);
        assert(seq!['w'].len() == 1 && seq!['W'].len() == 1 && seq!['b'].len() == 1 && seq![
            'B',
        ].len() == 1);
        None
    }
}

/// Whether the board has a king with the letter `king`, and at most sixteen
/// pieces of either side.
fn is_playable(cells: &Vec<char>, king: char) -> (r: bool)
    ensures
        r == playable(cells@, king),
{
    let n = cells.len();
    let mut white: usize = 0;
    let mut black: usize = 0;
    let mut found = false;
    let mut i: usize = 0;
    assert(cells@.take(0) =~= seq![]);
    while i < n
        invariant
            n == cells@.len(),
            i <= n,
            white == count_white(cells@.take(i as int)),
            black == count_black(cells@.take(i as int)),
            white <= i,
            black <= i,
            found == cells@.take(i as int).contains(king),
        decreases n - i,
    {
        let ch = cells[i];
        let ghost before = cells@.take(i as int);
        let ghost after = cells@.take(i + 1);
        assert(after.drop_last() =~= before);
        assert(after.last() == ch);
        proof {
            if before.contains(king) {
                let k = choose|k: int| 0 <= k < before.len() && before[k] == king;
                assert(after[k] == king);
            }
            if ch == king {
                assert(after[i as int] == king);
            }
            if after.contains(king) {
                let k = choose|k: int| 0 <= k < after.len() && after[k] == king;
                if k < i {
                    assert(before[k] == king);
                }
            }
        }
        if white_piece(ch) {
            white = white + 1;
        }
        if black_piece(ch) {
            black = black + 1;
        }
        if ch == king {
            found = true;
        }
        i = i + 1;
    }
    assert(cells@.take(n as int) =~= cells@);
    found && white <= 16 && black <= 16
}

/// Whether the position string can be handed to the reader of positions.
pub fn is_readable(text: &Vec<char>) -> (r: bool)
    ensures
        r == readable(text@),
{
    let n = text.len();
    let a = find_space(text, 0);
    if a >= n {
        proof {
            lemma_next_space(text@, a + 1);
            lemma_next_space(text@, next_space(text@, a + 1) + 1);
        }
        return true;
    }
    let b = find_space(text, a + 1);
    if b >= n {
        proof {
            lemma_next_space(text@, b + 1);
        }
        return true;
    }
    let c = find_space(text, b + 1);
    if c >= n {
        return true;
    }
    match place(text, a) {
        Some(cells) => match king_letter(text, a + 1, b) {
            Some(king) => is_playable(&cells, king),
            None => true,
        },
        None => true,
    }
}

/// Two texts of one character are the same text exactly where the two
/// characters are the same.
proof fn lemma_single(a: char, b: char)
    ensures
        seq![a] == seq![b] <==> a == b,
{
    assert(seq![a][0] == a);
    assert(seq![b][0] == b);
    if a == b {
        assert(seq![a] =~= seq![b]);
    }
}

} // verus!

//! When a game is drawn or over: the fifty-move and seventy-five-move
//! rules, insufficient material, repetition of positions, and the status
//! that follows from them.

use vstd::prelude::*;
use crate::bitboard::Bitboard;
use crate::bitboard::lowest_index;
use crate::bitboard::lemma_lowest_index;
use crate::bitboard::popcount;
use crate::position::PositionStatus;
use crate::square::Square;

verus! {

/// The status of a game, from the least to the most pressing.
#[derive(Clone, Copy, Debug, PartialEq, Eq, PartialOrd, Ord, Hash, Structural)]
pub enum BoardStatus {
    Ongoing,
    SeventyFiveMoves,
    FiveFoldRepetition,
    InsufficientMaterial,
    Stalemate,
    Checkmate,
}

/// A draw may be claimed: a hundred plies without a pawn move or a
/// capture, in a position that is neither checkmate nor stalemate.
pub open spec fn spec_is_fifty_moves(halfmove_clock: u8, status: PositionStatus) -> bool {
    halfmove_clock >= 100 && status == PositionStatus::Ongoing
}

/// The game is drawn: a hundred and fifty plies without a pawn move or a
/// capture, in a position that is neither checkmate nor stalemate.
pub open spec fn spec_is_seventy_five_moves(halfmove_clock: u8, status: PositionStatus) -> bool {
    halfmove_clock >= 150 && status == PositionStatus::Ongoing
}

/// The squares with indices `a` and `b` have the same colour.
pub open spec fn same_square_color(a: int, b: int) -> bool {
    (a / 8 + a % 8) % 2 == (b / 8 + b % 8) % 2
}

/// Neither side can give mate with what is on the board. Beside the kings
/// there is nothing; or a single piece, which is a knight or a bishop; or
/// at most two pieces and no knight, with a bishop on either side, and the
/// lowest bishop of White stands on a square of the same colour as the
/// lowest bishop of Black.
pub open spec fn spec_is_insufficient_material(
    kings: u64,
    knights: u64,
    bishops: u64,
    white: u64,
    black: u64,
) -> bool {
    let white_rest = white & !kings;
    let black_rest = black & !kings;
    let rest = white_rest | black_rest;
    let white_bishops = bishops & white_rest;
    let black_bishops = bishops & black_rest;
    ||| rest == 0
    ||| popcount(rest) == 1 && rest & !(knights | bishops) == 0
    ||| popcount(rest) <= 2 && knights == 0 && white_bishops != 0 && black_bishops != 0
        && same_square_color(lowest_index(white_bishops), lowest_index(black_bishops))
}

/// The least number of recorded positions among which one can occur `k`
/// times: a position cannot come back in fewer than four plies.
pub open spec fn min_positions(k: int) -> int {
    4 * (k - 1) + 1
}

/// The search for earlier occurrences of the last entry of `history`, from
/// index `i` downwards, when `found` occurrences are known and `n` are
/// asked for. The search stops without success where too few entries are
/// left for the occurrences still missing. It steps down by two plies, and
/// by four after an occurrence.
pub open spec fn scan_back(history: Seq<u64>, i: int, found: int, n: int) -> bool
    decreases i + 4,
{
    if i < 0 || i + 1 < min_positions(n - found) {
        false
    } else if history[i] == history.last() {
        found + 1 >= n || scan_back(history, i - 4, found + 1, n)
    } else {
        scan_back(history, i - 2, found, n)
    }
}

/// The last position of `history` has occurred `n` times, as far as the
/// search of `scan_back` finds. The last entry itself is the first
/// occurrence; the search starts four plies before it.
pub open spec fn spec_is_n_repetition(history: Seq<u64>, n: int) -> bool {
    history.len() >= min_positions(n) && (n <= 1 || scan_back(history, history.len() - 5, 1, n))
}

/// The status of a game. Checkmate and stalemate come first. Otherwise the
/// seventy-five-move rule is asked, then insufficient material, then
/// fivefold repetition, and the first that holds decides.
pub open spec fn spec_status(
    status: PositionStatus,
    halfmove_clock: u8,
    insufficient_material: bool,
    fivefold_repetition: bool,
) -> BoardStatus {
    match status {
        PositionStatus::Checkmate => BoardStatus::Checkmate,
        PositionStatus::Stalemate => BoardStatus::Stalemate,
        PositionStatus::Ongoing => if spec_is_seventy_five_moves(halfmove_clock, status) {
            BoardStatus::SeventyFiveMoves
        } else if insufficient_material {
            BoardStatus::InsufficientMaterial
        } else if fivefold_repetition {
            BoardStatus::FiveFoldRepetition
        } else {
            BoardStatus::Ongoing
        },
    }
}

/// The entry `4 * k` plies before the last entry of `history` is equal to
/// the last entry.
pub open spec fn comes_back(history: Seq<u64>, k: int) -> bool {
    history[history.len() - 1 - 4 * k] == history.last()
}

/// The number of entries of `history` that are equal to `hash`.
pub open spec fn occurrences(history: Seq<u64>, hash: u64) -> nat
    decreases history.len(),
{
    if history.len() == 0 {
        0
    } else {
        occurrences(history.drop_last(), hash) + if history.last() == hash { 1nat } else { 0nat }
    }
}

/// Among fewer than `4 * (n - 1) + 1` recorded positions none has occurred
/// `n` times: a threefold repetition needs nine positions, a fivefold one
/// seventeen.
pub proof fn lemma_repetition_needs_positions(history: Seq<u64>, n: int)
    requires
        history.len() < min_positions(n),
    ensures
        !spec_is_n_repetition(history, n),
{
}

/// The search succeeds from the entry `4 * found` plies before the last,
/// where every fourth entry back from the last is equal to the last.
proof fn lemma_scan_every_fourth(history: Seq<u64>, found: int, n: int)
    requires
        1 <= found < n,
        history.len() >= min_positions(n),
        forall|k: int| 0 <= k < n ==> comes_back(history, k),
    ensures
        scan_back(history, history.len() - 1 - 4 * found, found, n),
    decreases n - found,
{
    assert(comes_back(history, found));
    if found + 1 < n {
        lemma_scan_every_fourth(history, found + 1, n);
    }
}

/// A position that has come back every four plies, `n` times in all, has
/// occurred `n` times: the closest that occurrences can lie is enough.
pub proof fn lemma_repetition_every_fourth(history: Seq<u64>, n: int)
    requires
        n >= 1,
        history.len() >= min_positions(n),
        forall|k: int| 0 <= k < n ==> comes_back(history, k),
    ensures
        spec_is_n_repetition(history, n),
{
    if n >= 2 {
        lemma_scan_every_fourth(history, 1, n);
    }
}

/// `places` are occurrences of the last entry of `history` that lie as
/// repetitions of one position can lie: they are indices of `history` in
/// rising order, the last of them is the last index, every one holds the
/// last entry, and from each to the next there is an even number of plies,
/// four at least.
pub open spec fn is_chain(history: Seq<u64>, places: Seq<int>) -> bool {
    &&& places.len() >= 1
    &&& places[0] >= 0
    &&& places.last() == history.len() - 1
    &&& forall|k: int| 0 <= k < places.len() ==> history[#[trigger] places[k]] == history.last()
    &&& forall|k: int|
        0 <= k < places.len() - 1 ==> places[k + 1] - #[trigger] places[k] >= 4 && (places[k
            + 1] - places[k]) % 2 == 0
}

/// The place `k` of a chain lies at least `4 * k` entries from the start.
proof fn lemma_chain_low(history: Seq<u64>, places: Seq<int>, k: int)
    requires
        is_chain(history, places),
        0 <= k < places.len(),
    ensures
        places[k] >= 4 * k,
    decreases k,
{
    if k > 0 {
        lemma_chain_low(history, places, k - 1);
        assert(places[k - 1 + 1] - places[k - 1] >= 4);
    }
}

/// Every place of a chain lies an even number of plies before the last
/// entry.
proof fn lemma_chain_even(history: Seq<u64>, places: Seq<int>, k: int)
    requires
        is_chain(history, places),
        0 <= k < places.len(),
    ensures
        (history.len() - 1 - places[k]) % 2 == 0,
        places[k] <= history.len() - 1,
    decreases places.len() - k,
{
    if k < places.len() - 1 {
        lemma_chain_even(history, places, k + 1);
        assert((places[k + 1] - places[k]) % 2 == 0);
    }
}

/// Where a chain has its next place at index `i` or below, the search
/// succeeds from `i`.
proof fn lemma_chain_gives_scan(history: Seq<u64>, places: Seq<int>, i: int, found: int, n: int)
    requires
        is_chain(history, places),
        places.len() == n,
        1 <= found < n,
        places[n - found - 1] <= i <= history.len() - 5,
        (history.len() - 1 - i) % 2 == 0,
    ensures
        scan_back(history, i, found, n),
    decreases i + 4,
{
    let next = places[n - found - 1];
    lemma_chain_low(history, places, n - found - 1);
    lemma_chain_even(history, places, n - found - 1);
    if history[i] == history.last() {
        if found + 1 < n {
            assert(places[n - found - 2 + 1] - places[n - found - 2] >= 4);
            lemma_chain_gives_scan(history, places, i - 4, found + 1, n);
        }
    } else {
        assert(history[next] == history.last());
        lemma_chain_gives_scan(history, places, i - 2, found, n);
    }
}

/// Where the search succeeds from `i`, the occurrences that it finds are
/// the beginning of a chain.
proof fn lemma_scan_gives_chain(history: Seq<u64>, i: int, found: int, n: int) -> (places: Seq<
    int,
>)
    requires
        1 <= found < n,
        i < history.len(),
        (history.len() - 1 - i) % 2 == 0,
        scan_back(history, i, found, n),
    ensures
        places.len() == n - found,
        places[0] >= 0,
        places.last() <= i,
        (history.len() - 1 - places.last()) % 2 == 0,
        forall|k: int| 0 <= k < places.len() ==> history[#[trigger] places[k]] == history.last(),
        forall|k: int|
            0 <= k < places.len() - 1 ==> places[k + 1] - #[trigger] places[k] >= 4 && (places[k
                + 1] - places[k]) % 2 == 0,
    decreases i + 4,
{
    if history[i] == history.last() {
        if found + 1 >= n {
            seq![i]
        } else {
            let before = lemma_scan_gives_chain(history, i - 4, found + 1, n);
            let places = before.push(i);
            assert forall|k: int| 0 <= k < places.len() - 1 implies places[k + 1]
                - #[trigger] places[k] >= 4 && (places[k + 1] - places[k]) % 2 == 0 by {
                if k < before.len() - 1 {
                    assert(places[k] == before[k]);
                    assert(places[k + 1] == before[k + 1]);
                } else {
                    assert(places[k] == before.last());
                    assert(places[k + 1] == i);
                }
            }
            places
        }
    } else {
        lemma_scan_gives_chain(history, i - 2, found, n)
    }
}

/// A position has occurred `n` times, as the search finds, exactly where
/// the history holds a chain of `n` occurrences of its hash: where the
/// hash has come back `n - 1` times after an even number of plies, four at
/// least, each time.
pub proof fn lemma_repetition_is_chain(history: Seq<u64>, n: int)
    requires
        n >= 1,
    ensures
        spec_is_n_repetition(history, n) <==> exists|places: Seq<int>|
            places.len() == n && #[trigger] is_chain(history, places),
{
    let len = history.len() as int;
    if spec_is_n_repetition(history, n) {
        let places = if n == 1 {
            seq![len - 1]
        } else {
            let before = lemma_scan_gives_chain(history, len - 5, 1, n);
            let places = before.push(len - 1);
            assert forall|k: int| 0 <= k < places.len() - 1 implies places[k + 1]
                - #[trigger] places[k] >= 4 && (places[k + 1] - places[k]) % 2 == 0 by {
                if k < before.len() - 1 {
                    assert(places[k] == before[k]);
                    assert(places[k + 1] == before[k + 1]);
                } else {
                    assert(places[k] == before.last());
                    assert(places[k + 1] == len - 1);
                }
            }
            assert forall|k: int| 0 <= k < places.len() implies history[#[trigger] places[k]]
                == history.last() by {
                if k < before.len() {
                    assert(places[k] == before[k]);
                }
            }
            assert(places[0] == before[0]);
            places
        };
        assert(is_chain(history, places));
    }
    if exists|places: Seq<int>| places.len() == n && #[trigger] is_chain(history, places) {
        let places = choose|places: Seq<int>| places.len() == n && #[trigger] is_chain(
            history,
            places,
        );
        lemma_chain_low(history, places, n - 1);
        if n >= 2 {
            assert(places[n - 2 + 1] - places[n - 2] >= 4);
            lemma_chain_gives_scan(history, places, len - 5, 1, n);
        }
    }
}

/// A search that finds `n` occurrences finds one fewer too.
proof fn lemma_scan_fewer(history: Seq<u64>, i: int, found: int, n: int)
    requires
        1 <= found < n - 1,
        scan_back(history, i, found, n),
    ensures
        scan_back(history, i, found, n - 1),
    decreases i + 4,
{
    if history[i] == history.last() {
        if found + 1 < n - 1 {
            lemma_scan_fewer(history, i - 4, found + 1, n);
        }
    } else {
        lemma_scan_fewer(history, i - 2, found, n);
    }
}

/// A position that has occurred `n` times has occurred `n - 1` times: a
/// fivefold repetition is a threefold one as well.
pub proof fn lemma_repetition_fewer(history: Seq<u64>, n: int)
    requires
        spec_is_n_repetition(history, n),
    ensures
        spec_is_n_repetition(history, n - 1),
{
    if n > 2 {
        lemma_scan_fewer(history, history.len() - 5, 1, n);
    }
}

/// A longer beginning of a history holds no fewer occurrences.
proof fn lemma_occurrences_grow(history: Seq<u64>, a: int, b: int, hash: u64)
    requires
        0 <= a <= b <= history.len(),
    ensures
        occurrences(history.take(a), hash) <= occurrences(history.take(b), hash),
    decreases b - a,
{
    if a < b {
        lemma_occurrences_grow(history, a, b - 1, hash);
        assert(history.take(b).drop_last() =~= history.take(b - 1));
    }
}

/// Where the search succeeds, the entries up to its starting point hold
/// the occurrences that were still missing.
proof fn lemma_scan_counts(history: Seq<u64>, i: int, found: int, n: int)
    requires
        i < history.len(),
        scan_back(history, i, found, n),
    ensures
        i >= 0,
        occurrences(history.take(i + 1), history.last()) >= n - found,
    decreases i + 4,
{
    let hash = history.last();
    assert(history.take(i + 1).drop_last() =~= history.take(i));
    assert(history.take(i + 1).last() == history[i]);
    if history[i] == hash {
        if found + 1 < n {
            lemma_scan_counts(history, i - 4, found + 1, n);
            lemma_occurrences_grow(history, i - 3, i, hash);
        }
    } else {
        lemma_scan_counts(history, i - 2, found, n);
        lemma_occurrences_grow(history, i - 1, i, hash);
    }
}

/// A position is said to have occurred `n` times only where the history
/// holds its hash at least `n` times.
pub proof fn lemma_repetition_counts(history: Seq<u64>, n: int)
    requires
        spec_is_n_repetition(history, n),
    ensures
        occurrences(history, history.last()) >= n,
{
    let hash = history.last();
    if n >= 2 {
        let len = history.len() as int;
        lemma_scan_counts(history, len - 5, 1, n);
        lemma_occurrences_grow(history, len - 4, len - 1, hash);
        assert(history.drop_last() =~= history.take(len - 1));
    }
}

/// Whether a draw may be claimed under the fifty-move rule.
pub fn is_fifty_moves(halfmove_clock: u8, status: PositionStatus) -> (r: bool)
    ensures
        r == spec_is_fifty_moves(halfmove_clock, status),
{
    halfmove_clock >= 100 && status == PositionStatus::Ongoing
}

/// Whether the game is drawn under the seventy-five-move rule.
pub fn is_seventy_five_moves(halfmove_clock: u8, status: PositionStatus) -> (r: bool)
    ensures
        r == spec_is_seventy_five_moves(halfmove_clock, status),
{
    halfmove_clock >= 150 && status == PositionStatus::Ongoing
}

/// Whether two squares have the same colour.
pub fn is_same_square_color(a: Square, b: Square) -> (r: bool)
    ensures
        r == same_square_color(a@, b@),
{
    let x: u32 = a.get_index() as u32;
    let y: u32 = b.get_index() as u32;
    let z: u32 = x ^ y;
    assert(z < 64) by (bit_vector)
        requires
            x < 64,
            y < 64,
            z == x ^ y,
    ;
    let w: u32 = 9 * z;
    assert((w & 8 == 0) <==> ((x / 8 + x % 8) % 2 == (y / 8 + y % 8) % 2)) by (bit_vector)
        requires
            x < 64,
            y < 64,
            z == x ^ y,
            w == 9 * z,
    ;
    (w & 8) == 0
}

/// Whether neither side can give mate, given the squares of the kings, the
/// knights and the bishops, and the squares of either side.
pub fn is_insufficient_material(
    kings: Bitboard,
    knights: Bitboard,
    bishops: Bitboard,
    white: Bitboard,
    black: Bitboard,
) -> (r: bool)
    ensures
        r == spec_is_insufficient_material(kings.0, knights.0, bishops.0, white.0, black.0),
{
    let white_rest = white.and(kings.invert());
    let black_rest = black.and(kings.invert());
    let rest = white_rest.or(black_rest);
    if rest.is_empty() {
        return true;
    }
    let remaining = rest.popcnt();
    if remaining <= 2 {
        if remaining == 1 && rest.and(knights.or(bishops).invert()).is_empty() {
            return true;
        } else if knights.is_empty() {
            let white_bishops = bishops.and(white_rest);
            let black_bishops = bishops.and(black_rest);
            proof {
                lemma_lowest_index(white_bishops.0);
                lemma_lowest_index(black_bishops.0);
            }
            match (white_bishops.to_square(), black_bishops.to_square()) {
                (Some(a), Some(b)) => {
                    proof {
                        Square::lemma_at(lowest_index(white_bishops.0));
                        Square::lemma_at(lowest_index(black_bishops.0));
                    }
                    return is_same_square_color(a, b);
                },
                _ => {},
            }
        }
    }
    false
}

/// Whether the last position of `history` has occurred `n` times.
pub fn is_n_repetition(history: &Vec<u64>, n: u8) -> (r: bool)
    ensures
        r == spec_is_n_repetition(history@, n as int),
{
    let len = history.len();
    if n == 0 {
        return true;
    }
    if n == 1 {
        return len >= 1;
    }
    let needed: usize = 4 * (n as usize - 1) + 1;
    if len < needed {
        return false;
    }
    let current = history[len - 1];
    let mut found: u8 = 1;
    let mut i: usize = len - 5;
    loop
        invariant
            len == history@.len(),
            len >= 5,
            current == history@.last(),
            n >= 2,
            1 <= found < n,
            i <= len - 5,
            spec_is_n_repetition(history@, n as int) == scan_back(
                history@,
                i as int,
                found as int,
                n as int,
            ),
        decreases i,
    {
        let missing: usize = (n - found) as usize;
        if i + 1 < 4 * (missing - 1) + 1 {
            return false;
        }
        if history[i] == current {
            found = found + 1;
            if found >= n {
                return true;
            }
            i = i - 4;
        } else {
            if i < 2 {
                assert(!scan_back(history@, i - 2, found as int, n as int));
                return false;
            }
            i = i - 2;
        }
    }
}

/// The status of a game, given what the position, the clock, the material
/// and the repetitions say.
pub fn get_status(
    status: PositionStatus,
    halfmove_clock: u8,
    insufficient_material: bool,
    fivefold_repetition: bool,
) -> (r: BoardStatus)
    ensures
        r == spec_status(status, halfmove_clock, insufficient_material, fivefold_repetition),
{
    match status {
        PositionStatus::Checkmate => BoardStatus::Checkmate,
        PositionStatus::Stalemate => BoardStatus::Stalemate,
        PositionStatus::Ongoing => if is_seventy_five_moves(halfmove_clock, status) {
            BoardStatus::SeventyFiveMoves
        } else if insufficient_material {
            BoardStatus::InsufficientMaterial
        } else if fivefold_repetition {
            BoardStatus::FiveFoldRepetition
        } else {
            BoardStatus::Ongoing
        },
    }
}

} // verus!
